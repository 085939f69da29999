//! The weekly "Friday" game's pure logic: the stored state, the absolved
//! list, the controller's state transition, and the decision taken for
//! each incoming chat message. Reading the clock is the one outside call,
//! and nothing is promised of its result beyond its range.

use vstd::prelude::*;

verus! {

/// The game's stored state: whether it is currently Friday, and the users
/// absolved for the week.
#[derive(Debug)]
pub struct Friday {
    pub friday: bool,
    pub angels: Vec<u64>,
}

impl Friday {
    /// The state a fresh store starts from: not Friday, nobody absolved.
    pub fn new() -> (f: Friday)
        ensures
            f.friday == false,
            f.angels@ == Seq::<u64>::empty(),
    {
        Friday { friday: false, angels: Vec::new() }
    }
}

/// Keeps the users other than `user`.
pub open spec fn spec_keep_other(user: u64) -> spec_fn(u64) -> bool {
    |x: u64| x != user
}

/// Absolve `user`: append them to the list.
pub fn add_user(friday: &mut Friday, user: u64)
    ensures
        final(friday).friday == old(friday).friday,
        final(friday).angels@ == old(friday).angels@.push(user),
{
    friday.angels.push(user);
}

/// Strike `user` from the absolved list, keeping everyone else in order.
pub fn remove_user(friday: &mut Friday, user: u64)
    ensures
        final(friday).friday == old(friday).friday,
        final(friday).angels@ == old(friday).angels@.filter(spec_keep_other(user)),
{
    let ghost orig = friday.angels@;
    let mut kept: Vec<u64> = Vec::new();
    let mut i: usize = 0;
    proof {
        assert(orig.subrange(0, 0) =~= Seq::<u64>::empty());
        assert(Seq::<u64>::empty().filter(spec_keep_other(user)) =~= Seq::<u64>::empty());
    }
    while i < friday.angels.len()
        invariant
            i <= friday.angels@.len(),
            friday.angels@ == orig,
            kept@ == orig.subrange(0, i as int).filter(spec_keep_other(user)),
        decreases friday.angels@.len() - i,
    {
        let x = friday.angels[i];
        proof {
            reveal_with_fuel(Seq::<u64>::filter, 2);
            let pred = spec_keep_other(user);
            let prev = orig.subrange(0, i as int);
            let sub1 = orig.subrange(0, i as int + 1);
            assert(sub1.drop_last() =~= prev);
            assert(sub1.last() == orig[i as int]);
            assert(pred(orig[i as int]) == (orig[i as int] != user));
            assert(sub1.filter(pred) == if pred(orig[i as int]) {
                prev.filter(pred).push(orig[i as int])
            } else {
                prev.filter(pred)
            });
        }
        if x != user {
            kept.push(x);
        }
        i = i + 1;
    }
    proof {
        assert(orig.subrange(0, orig.len() as int) =~= orig);
    }
    friday.angels = kept;
}

/// Whether `user` still owes a Friday reaction: true exactly when they
/// are not on the absolved list.
pub fn is_sinner(friday: &Friday, user: u64) -> (r: bool)
    ensures
        r == !friday.angels@.contains(user),
{
    let mut i: usize = 0;
    while i < friday.angels.len()
        invariant
            i <= friday.angels@.len(),
            forall|j: int| 0 <= j < i ==> friday.angels@[j] != user,
        decreases friday.angels@.len() - i,
    {
        if friday.angels[i] == user {
            return false;
        }
        i = i + 1;
    }
    true
}

/// Relies on chrono's `Utc::now`, `FixedOffset::east_opt` and
/// `Datelike::weekday`: the current weekday in the fixed UTC+2 zone the
/// bot lives in, counted in days from Monday. The result depends on the
/// clock, so only its range is stated.
#[verifier::external_body]
fn weekday_in_bot_zone() -> (d: u32)
    ensures
        d < 7,
{
    let offset = chrono::FixedOffset::east_opt(2 * 3600).unwrap();
    let now = chrono::Utc::now().with_timezone(&offset);
    chrono::Datelike::weekday(&now).num_days_from_monday()
}

/// Whether weekday index `d` (days from Monday) is a Friday.
pub open spec fn spec_weekday_is_friday(d: u32) -> bool {
    d == 4
}

pub fn weekday_is_friday(d: u32) -> (r: bool)
    ensures
        r == spec_weekday_is_friday(d),
{
    d == 4
}

/// Whether it is Friday right now in the bot's zone. The answer comes
/// from the clock; every decision taken from it is verified for both
/// answers.
pub fn is_friday() -> (r: bool) {
    let d = weekday_in_bot_zone();
    weekday_is_friday(d)
}

/// What the periodic controller decides from the stored flag and the
/// clock's answer.
#[derive(Clone, Copy, PartialEq, Eq, Structural, Debug)]
pub struct FridayTransition {
    /// The flag the state should now hold.
    pub new_friday: bool,
    /// Whether the state changed and must be written back.
    pub write_state: bool,
    /// Whether the absolved list starts over.
    pub reset_angels: bool,
    /// Whether the week's arrival is announced in the Friday channel.
    pub announce: bool,
}

/// The controller's transition: entering Friday resets the absolved list
/// and announces; leaving it only stores the new flag; anything else
/// leaves the state alone.
pub fn friday_transition(stored: bool, now_friday: bool) -> (r: FridayTransition)
    ensures
        r.new_friday == now_friday,
        r.write_state == (stored != now_friday),
        r.reset_angels == (!stored && now_friday),
        r.announce == (!stored && now_friday),
{
    FridayTransition {
        new_friday: now_friday,
        write_state: stored != now_friday,
        reset_angels: !stored && now_friday,
        announce: !stored && now_friday,
    }
}

/// Whether `needle` occurs in `hay` starting at `i`.
pub open spec fn spec_contains_at(hay: Seq<u8>, needle: Seq<u8>, i: int) -> bool {
    0 <= i && i + needle.len() <= hay.len() && hay.subrange(i, i + needle.len()) == needle
}

/// Whether `needle` occurs anywhere in `hay`.
pub open spec fn spec_contains(hay: Seq<u8>, needle: Seq<u8>) -> bool {
    exists|i: int| spec_contains_at(hay, needle, i)
}

/// Substring search over bytes.
pub fn contains_bytes(hay: &Vec<u8>, needle: &Vec<u8>) -> (r: bool)
    ensures
        r == spec_contains(hay@, needle@),
{
    let n = needle.len();
    let h = hay.len();
    if n > h {
        proof {
            assert forall|i: int| !spec_contains_at(hay@, needle@, i) by {}
        }
        return false;
    }
    if n == 0 {
        proof {
            assert(hay@.subrange(0, 0) =~= needle@);
            assert(spec_contains_at(hay@, needle@, 0));
        }
        return true;
    }
    let mut i: usize = 0;
    while i <= h - n
        invariant
            1 <= n,
            n == needle@.len(),
            h == hay@.len(),
            n <= h,
            i <= h - n + 1,
            forall|ii: int| 0 <= ii < i ==> !spec_contains_at(hay@, needle@, ii),
        decreases h - n + 1 - i,
    {
        let mut j: usize = 0;
        let mut matched = true;
        while j < n
            invariant
                n == needle@.len(),
                h == hay@.len(),
                n <= h,
                i <= h - n,
                j <= n,
                matched ==> forall|jj: int| 0 <= jj < j ==> hay@[i + jj] == needle@[jj],
                !matched ==> !spec_contains_at(hay@, needle@, i as int),
            decreases n - j,
        {
            if hay[i + j] != needle[j] {
                proof {
                    if spec_contains_at(hay@, needle@, i as int) {
                        assert(hay@.subrange(i as int, i as int + n)[j as int] == needle@[j as int]);
                    }
                }
                matched = false;
                j = n;
            } else {
                j = j + 1;
            }
        }
        if matched {
            proof {
                assert(hay@.subrange(i as int, i as int + n) =~= needle@);
                assert(spec_contains_at(hay@, needle@, i as int));
            }
            return true;
        }
        i = i + 1;
    }
    proof {
        assert forall|ii: int| !spec_contains_at(hay@, needle@, ii) by {}
    }
    false
}

/// The byte text `tenor`, one of the two markers the absolution message
/// must carry.
pub open spec fn spec_tenor_marker() -> Seq<u8> {
    seq![116u8, 101u8, 110u8, 111u8, 114u8]
}

/// The byte text `fiber-optic-friday`, the other marker.
pub open spec fn spec_friday_marker() -> Seq<u8> {
    seq![
        102u8,
        105u8,
        98u8,
        101u8,
        114u8,
        45u8,
        111u8,
        112u8,
        116u8,
        105u8,
        99u8,
        45u8,
        102u8,
        114u8,
        105u8,
        100u8,
        97u8,
        121u8,
    ]
}

/// What the bot does with a chat message.
#[derive(Clone, Copy, PartialEq, Eq, Structural, Debug)]
pub enum MessageAction {
    /// The sender posted the Friday gif on a Friday: absolve them.
    Absolve,
    /// React to the message; the flag says whether it is Friday, which
    /// picks the emote.
    React(bool),
    /// Leave the message alone.
    Nothing,
}

/// The decision for one message: bots and the already absolved are left
/// alone; on a Friday a message carrying both gif markers absolves its
/// sender; any other message from a sinner is reacted to.
pub fn message_action(
    author_bot: bool,
    friday_now: bool,
    friday: &Friday,
    user: u64,
    content: &Vec<u8>,
) -> (r: MessageAction)
    ensures
        ({
            let sinner = !friday.angels@.contains(user);
            let has_gif = spec_contains(content@, spec_tenor_marker()) && spec_contains(
                content@,
                spec_friday_marker(),
            );
            if sinner && !author_bot {
                if friday_now && has_gif {
                    r == MessageAction::Absolve
                } else {
                    r == MessageAction::React(friday_now)
                }
            } else {
                r == MessageAction::Nothing
            }
        }),
{
    let sinner = is_sinner(friday, user);
    if !(sinner && !author_bot) {
        return MessageAction::Nothing;
    }
    let tenor: Vec<u8> = vec![116u8, 101u8, 110u8, 111u8, 114u8];
    let marker: Vec<u8> = vec![
        102u8,
        105u8,
        98u8,
        101u8,
        114u8,
        45u8,
        111u8,
        112u8,
        116u8,
        105u8,
        99u8,
        45u8,
        102u8,
        114u8,
        105u8,
        100u8,
        97u8,
        121u8,
    ];
    proof {
        assert(tenor@ =~= spec_tenor_marker());
        assert(marker@ =~= spec_friday_marker());
    }
    if friday_now && contains_bytes(content, &tenor) && contains_bytes(content, &marker) {
        MessageAction::Absolve
    } else {
        MessageAction::React(friday_now)
    }
}

} // verus!
