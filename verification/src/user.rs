use crate::date::CalendarDay;
use std::collections::HashMap;
use vstd::prelude::*;

verus! {

broadcast use vstd::std_specs::hash::group_hash_axioms;

/// A credit is earned with every message whose running number is a multiple
/// of this.
pub const MESSAGES_PER_CREDIT: i64 = 100;

/// The mathematical value of a profile: unbounded integers, and the last
/// active date as its day number.
pub struct ProfileView {
    pub id: int,
    pub message_count: int,
    pub mutes_left: int,
    pub mutes_used: int,
    pub streak: int,
    pub last_activity: int,
}

/// One user's stored profile.
#[derive(Clone, Copy, Debug, PartialEq, Eq)]
pub struct ServerUser {
    pub id: i64,
    pub message_count: i64,
    pub mutes_left: i64,
    pub mutes_used: i64,
    pub streak: i64,
    pub last_activity: CalendarDay,
}

impl View for ServerUser {
    type V = ProfileView;

    open spec fn view(&self) -> ProfileView {
        ProfileView {
            id: self.id as int,
            message_count: self.message_count as int,
            mutes_left: self.mutes_left as int,
            mutes_used: self.mutes_used as int,
            streak: self.streak as int,
            last_activity: self.last_activity@,
        }
    }
}

/// The profile that a user's first message on `day` creates.
pub open spec fn first_profile(id: int, day: int) -> ProfileView {
    ProfileView {
        id,
        message_count: 1,
        mutes_left: 0,
        mutes_used: 0,
        streak: 0,
        last_activity: day,
    }
}

/// The streak after a message on `day`: one longer on the day after the last
/// active day, unchanged on the same day, broken on any other day.
pub open spec fn next_streak(streak: int, last_activity: int, day: int) -> int {
    if day - last_activity == 1 {
        streak + 1
    } else if day == last_activity {
        streak
    } else {
        0
    }
}

/// The credits that the message with running number `message_count` earns.
pub open spec fn credit_earned(message_count: int) -> int {
    if message_count % (MESSAGES_PER_CREDIT as int) == 0 {
        1
    } else {
        0
    }
}

/// A profile after the count of one more message alone: streak, credits and
/// last active day stay.
pub open spec fn after_count(p: ProfileView) -> ProfileView {
    ProfileView { message_count: p.message_count + 1, ..p }
}

/// A profile whose newest message, sent on `day`, is counted already, after
/// streak, credits and last active day have been brought up to it.
pub open spec fn settled(p: ProfileView, day: int) -> ProfileView {
    ProfileView {
        mutes_left: p.mutes_left + credit_earned(p.message_count),
        streak: next_streak(p.streak, p.last_activity, day),
        last_activity: day,
        ..p
    }
}

/// An existing profile after one more message, sent on `day`.
pub open spec fn after_message(p: ProfileView, day: int) -> ProfileView {
    ProfileView {
        id: p.id,
        message_count: p.message_count + 1,
        mutes_left: p.mutes_left + credit_earned(p.message_count + 1),
        mutes_used: p.mutes_used,
        streak: next_streak(p.streak, p.last_activity, day),
        last_activity: day,
    }
}

/// The profile of user `id` after a message on `day`, given what was stored
/// for that user before.
pub open spec fn recorded(existing: Option<ProfileView>, id: int, day: int) -> ProfileView {
    match existing {
        None => first_profile(id, day),
        Some(p) => after_message(p, day),
    }
}

/// The counters are in the range that stored profiles have: at least one
/// message, and nothing negative.
pub open spec fn is_valid(p: ProfileView) -> bool {
    &&& p.message_count >= 1
    &&& p.mutes_left >= 0
    &&& p.mutes_used >= 0
    &&& p.streak >= 0
}

/// The counters do not exceed what the stored integers can hold.
pub open spec fn fits(p: ProfileView) -> bool {
    &&& p.message_count <= i64::MAX
    &&& p.mutes_left <= i64::MAX
    &&& p.streak <= i64::MAX
}

/// A message on `day` can be counted on `p` without leaving the range of the
/// stored integers.
pub open spec fn has_room(p: ProfileView, day: int) -> bool {
    fits(after_message(p, day))
}

impl ServerUser {
    /// Whether the counters are in the range that stored profiles have.
    pub fn is_valid_profile(&self) -> (r: bool)
        ensures
            r == is_valid(self@),
    {
        self.message_count >= 1 && self.mutes_left >= 0 && self.mutes_used >= 0 && self.streak
            >= 0
    }

    /// Whether a message on `day` can be counted on this profile.
    pub fn has_room_for(&self, day: CalendarDay) -> (r: bool)
        ensures
            r == has_room(self@, day@),
    {
        if self.message_count == i64::MAX {
            return false;
        }
        let streak_grows = day.days_since(self.last_activity) == 1;
        let credit_due = (self.message_count + 1) % MESSAGES_PER_CREDIT == 0;
        !(streak_grows && self.streak == i64::MAX) && !(credit_due && self.mutes_left == i64::MAX)
    }

    /// The profile that a user's first message creates.
    pub fn first_message(user_id: i64, day: CalendarDay) -> (r: ServerUser)
        ensures
            r@ == first_profile(user_id as int, day@),
            is_valid(r@),
    {
        ServerUser {
            id: user_id,
            message_count: 1,
            mutes_left: 0,
            mutes_used: 0,
            streak: 0,
            last_activity: day,
        }
    }

    /// Brings streak, credits and last active day up to the newest message,
    /// sent on `day` and counted already: the streak follows the distance in
    /// days from the last active day, and a message count that is a multiple
    /// of a hundred earns a credit.
    pub fn settle(&mut self, day: CalendarDay)
        requires
            fits(settled(old(self)@, day@)),
        ensures
            final(self)@ == settled(old(self)@, day@),
            is_valid(old(self)@) ==> is_valid(final(self)@),
    {
        let gap: i64 = day.days_since(self.last_activity);
        if gap == 1 {
            self.streak = self.streak + 1;
            self.last_activity = day;
        } else if gap != 0 {
            self.streak = 0;
            self.last_activity = day;
        }
        if self.message_count % MESSAGES_PER_CREDIT == 0 {
            self.mutes_left = self.mutes_left + 1;
        }
    }

    /// Counts one more message, sent on `day`: the message count goes up by
    /// one, the streak follows the distance in days from the last active
    /// day, and every hundredth message earns a credit.
    pub fn record_message(&mut self, day: CalendarDay)
        requires
            has_room(old(self)@, day@),
        ensures
            final(self)@ == after_message(old(self)@, day@),
            is_valid(old(self)@) ==> is_valid(final(self)@),
    {
        self.message_count = self.message_count + 1;
        self.settle(day);
    }

    /// The profile to store for `user_id` after a message on `day`, given the
    /// profile stored before, if any.
    pub fn record(existing: Option<ServerUser>, user_id: i64, day: CalendarDay) -> (r: ServerUser)
        requires
            existing matches Some(p) ==> has_room(p@, day@),
        ensures
            r@ == recorded(
                match existing {
                    Some(p) => Some(p@),
                    None => None,
                },
                user_id as int,
                day@,
            ),
            (existing matches Some(p) ==> is_valid(p@)) ==> is_valid(r@),
    {
        match existing {
            Some(p) => {
                let mut next = p;
                next.record_message(day);
                next
            },
            None => ServerUser::first_message(user_id, day),
        }
    }
}

/// The stored profiles: at most one for each user, kept under the user's
/// id.
pub struct UserTable {
    rows: HashMap<i64, ServerUser>,
}

impl View for UserTable {
    type V = Map<i64, ProfileView>;

    closed spec fn view(&self) -> Map<i64, ProfileView> {
        Map::new(|id: i64| self.rows@.contains_key(id), |id: i64| self.rows@[id]@)
    }
}

/// What is stored for `id`, if anything.
pub open spec fn stored(profiles: Map<i64, ProfileView>, id: i64) -> Option<ProfileView> {
    if profiles.contains_key(id) {
        Some(profiles[id])
    } else {
        None
    }
}

/// What is stored for user `id` once a message of `day` has been counted:
/// a first profile, or the old one with one message more.
pub open spec fn counted(existing: Option<ProfileView>, id: int, day: int) -> ProfileView {
    match existing {
        None => first_profile(id, day),
        Some(p) => after_count(p),
    }
}

impl UserTable {
    /// Every profile is kept under its own id, and its counters are valid.
    pub open spec fn wf(&self) -> bool {
        forall|id: i64| #[trigger]
            self@.contains_key(id) ==> self@[id].id == id && is_valid(self@[id])
    }

    /// Whether a message of `user_id` on `day` can be recorded: a stored
    /// profile must have room for it.
    pub fn can_record(&self, user_id: i64, day: CalendarDay) -> (r: bool)
        ensures
            r == (self@.contains_key(user_id) ==> has_room(self@[user_id], day@)),
    {
        match ServerUser::get_user_from_id(self, user_id) {
            Some(user) => user.has_room_for(day),
            None => true,
        }
    }

    /// A table without profiles.
    pub fn new() -> (r: UserTable)
        ensures
            r@ == Map::<i64, ProfileView>::empty(),
            r.wf(),
    {
        let r = UserTable { rows: HashMap::new() };
        assert(r@ =~= Map::<i64, ProfileView>::empty());
        r
    }

    /// Records a message of `user_id` on `day`: the user's first message
    /// creates the profile, a later one advances message count, streak and
    /// credits. No other profile changes.
    pub fn record(&mut self, user_id: i64, day: CalendarDay)
        requires
            old(self).wf(),
            old(self)@.contains_key(user_id) ==> has_room(old(self)@[user_id], day@),
        ensures
            final(self)@ == old(self)@.insert(
                user_id,
                recorded(stored(old(self)@, user_id), user_id as int, day@),
            ),
            final(self).wf(),
    {
        let existing = ServerUser::get_user_from_id(self, user_id);
        let next = ServerUser::record(existing, user_id, day);
        self.rows.insert(user_id, next);
        assert(self@ =~= old(self)@.insert(
            user_id,
            recorded(stored(old(self)@, user_id), user_id as int, day@),
        ));
    }
}

impl ServerUser {
    /// The profile stored for `user_id`, or `None` for a user that has no
    /// profile.
    pub fn get_user_from_id(table: &UserTable, user_id: i64) -> (r: Option<ServerUser>)
        ensures
            match r {
                Some(user) => stored(table@, user_id) == Some(user@),
                None => stored(table@, user_id) is None,
            },
    {
        match table.rows.get(&user_id) {
            Some(user) => Some(*user),
            None => None,
        }
    }

    /// Writes this profile over the one stored under its id. Where none is
    /// stored under that id, the table stays as it is.
    pub fn update_db(self, table: &mut UserTable)
        requires
            old(table).wf(),
            is_valid(self@),
        ensures
            final(table)@ == if old(table)@.contains_key(self.id) {
                old(table)@.insert(self.id, self@)
            } else {
                old(table)@
            },
            final(table).wf(),
    {
        if table.rows.contains_key(&self.id) {
            table.rows.insert(self.id, self);
            assert(table@ =~= old(table)@.insert(self.id, self@));
        }
    }

    /// Counts a message of `user_id`: a user without a profile gets a first
    /// one dated `today`, an existing profile gets one message more and is
    /// otherwise unchanged.
    pub fn increment_message_count(table: &mut UserTable, user_id: i64, today: CalendarDay)
        requires
            old(table).wf(),
            old(table)@.contains_key(user_id) ==> old(table)@[user_id].message_count < i64::MAX,
        ensures
            final(table)@ == old(table)@.insert(
                user_id,
                counted(stored(old(table)@, user_id), user_id as int, today@),
            ),
            final(table).wf(),
    {
        let next = match ServerUser::get_user_from_id(table, user_id) {
            Some(user) => ServerUser { message_count: user.message_count + 1, ..user },
            None => ServerUser::first_message(user_id, today),
        };
        table.rows.insert(user_id, next);
        assert(table@ =~= old(table)@.insert(
            user_id,
            counted(stored(old(table)@, user_id), user_id as int, today@),
        ));
    }
}

/// The profile of user `id` after messages on each of `days`, in that order,
/// and nothing stored before: `None` as long as no message was sent.
pub open spec fn replayed(id: int, days: Seq<int>) -> Option<ProfileView>
    decreases days.len(),
{
    if days.len() == 0 {
        None
    } else {
        Some(recorded(replayed(id, days.drop_last()), id, days.last()))
    }
}

/// To count a message first and to settle streak and credits afterwards, on
/// the profile as it was then stored, gives what recording the message in
/// one step gives.
pub proof fn lemma_count_then_settle_is_record(existing: Option<ProfileView>, id: int, day: int)
    ensures
        settled(counted(existing, id, day), day) == recorded(existing, id, day),
{
}

/// A user's first message leaves a profile with one message, no streak and
/// no credits, last active on the day of that message.
pub proof fn lemma_first_message_starts_profile(id: int, day: int)
    ensures
        recorded(None, id, day).message_count == 1,
        recorded(None, id, day).streak == 0,
        recorded(None, id, day).mutes_left == 0,
        recorded(None, id, day).mutes_used == 0,
        recorded(None, id, day).last_activity == day,
        replayed(id, seq![day]) == Some(recorded(None, id, day)),
{
    let days = seq![day];
    assert(days.drop_last().len() == 0);
    assert(days.last() == day);
    assert(replayed(id, days.drop_last()) == None::<ProfileView>);
}

/// A second message on the same date, whatever was stored before the first,
/// advances the message count alone: streak and last active day stay.
pub proof fn lemma_same_day_is_idempotent(existing: Option<ProfileView>, id: int, day: int)
    ensures
        ({
            let first = recorded(existing, id, day);
            let second = recorded(Some(first), id, day);
            &&& second.streak == first.streak
            &&& second.last_activity == first.last_activity
            &&& second.message_count == first.message_count + 1
        }),
{
}

/// A message on the day after the last active day lengthens the streak by
/// one. So where a message on `day` leaves no streak, as a new user's does,
/// a message on the next day makes the streak 1 and one on the day after
/// that makes it 2.
pub proof fn lemma_consecutive_days_extend_streak(existing: Option<ProfileView>, id: int, day: int)
    requires
        recorded(existing, id, day).streak == 0,
    ensures
        ({
            let first = recorded(existing, id, day);
            let second = recorded(Some(first), id, day + 1);
            let third = recorded(Some(second), id, day + 2);
            &&& second.streak == 1
            &&& second.last_activity == day + 1
            &&& third.streak == 2
            &&& third.last_activity == day + 2
        }),
{
}

/// A message on the day after the last active day makes the streak one
/// longer, whatever it was.
pub proof fn lemma_next_day_adds_one(p: ProfileView)
    ensures
        after_message(p, p.last_activity + 1).streak == p.streak + 1,
        after_message(p, p.last_activity + 1).last_activity == p.last_activity + 1,
{
}

/// A message on any day but the last active day and the day after it breaks
/// the streak and becomes the last active day. Three days later is such a
/// day.
pub proof fn lemma_gap_breaks_streak(existing: Option<ProfileView>, id: int, day: int, gap: int)
    requires
        gap != 0,
        gap != 1,
    ensures
        recorded(Some(recorded(existing, id, day)), id, day + gap).streak == 0,
        recorded(Some(recorded(existing, id, day)), id, day + gap).last_activity == day + gap,
        recorded(Some(recorded(existing, id, day)), id, day + 3).streak == 0,
        recorded(Some(recorded(existing, id, day)), id, day + 3).last_activity == day + 3,
{
}

/// A message earns exactly one credit where its running number is a multiple
/// of 100, and none otherwise; credits used never change.
pub proof fn lemma_credit_only_on_hundredth(p: ProfileView, day: int)
    ensures
        (p.message_count + 1) % 100 == 0 ==> after_message(p, day).mutes_left == p.mutes_left + 1,
        (p.message_count + 1) % 100 != 0 ==> after_message(p, day).mutes_left == p.mutes_left,
        after_message(p, day).mutes_used == p.mutes_used,
{
}

/// After `n` messages of a new user, on whatever dates, the profile counts
/// `n` messages and holds one credit for every full hundred of them: one
/// after 100 messages, two after 250. Its last active day is the day of the
/// last message, and its counters are valid.
pub proof fn lemma_replay_counts_and_credits(id: int, days: Seq<int>)
    requires
        days.len() > 0,
    ensures
        replayed(id, days) is Some,
        replayed(id, days).unwrap().id == id,
        replayed(id, days).unwrap().message_count == days.len(),
        replayed(id, days).unwrap().mutes_left == days.len() / 100,
        replayed(id, days).unwrap().mutes_used == 0,
        replayed(id, days).unwrap().last_activity == days.last(),
        is_valid(replayed(id, days).unwrap()),
        days.len() == 100 ==> replayed(id, days).unwrap().mutes_left == 1,
        days.len() == 250 ==> replayed(id, days).unwrap().mutes_left == 2,
    decreases days.len(),
{
    let earlier = days.drop_last();
    if earlier.len() > 0 {
        lemma_replay_counts_and_credits(id, earlier);
    } else {
        assert(replayed(id, earlier) == None::<ProfileView>);
    }
    assert(replayed(id, days) == Some(recorded(replayed(id, earlier), id, days.last())));
}

/// The stored profiles after the messages `events`, each the id of its sender
/// and its day, recorded in that order on a table without profiles.
pub open spec fn profiles_after(events: Seq<(i64, int)>) -> Map<i64, ProfileView>
    decreases events.len(),
{
    if events.len() == 0 {
        Map::empty()
    } else {
        let before = profiles_after(events.drop_last());
        let (id, day) = events.last();
        before.insert(id, recorded(stored(before, id), id as int, day))
    }
}

/// The days of the messages among `events` that user `id` sent, in order.
pub open spec fn days_of(events: Seq<(i64, int)>, id: i64) -> Seq<int>
    decreases events.len(),
{
    if events.len() == 0 {
        Seq::empty()
    } else {
        let earlier = days_of(events.drop_last(), id);
        if events.last().0 == id {
            earlier.push(events.last().1)
        } else {
            earlier
        }
    }
}

/// Users do not touch each other: however the messages of different users
/// are mixed, each user's profile is what that user's own messages alone
/// would have left, and a user who sent none has no profile.
pub proof fn lemma_each_user_has_own_history(events: Seq<(i64, int)>, id: i64)
    ensures
        stored(profiles_after(events), id) == replayed(id as int, days_of(events, id)),
    decreases events.len(),
{
    if events.len() > 0 {
        let earlier = events.drop_last();
        lemma_each_user_has_own_history(earlier, id);
        if events.last().0 == id {
            let days = days_of(events, id);
            assert(days.drop_last() =~= days_of(earlier, id));
            assert(days.last() == events.last().1);
        }
    }
}

} // verus!
