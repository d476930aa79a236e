//! The on-disk item cache: file naming, freshness classification and the
//! janitor's rules. Reading and writing files is left to the caller.
use vstd::prelude::*;

use crate::text::{chars_of, string_of};
use crate::types::HnItem;

verus! {

/// Decimal digits of `n`, most significant first.
pub open spec fn decimal(n: nat) -> Seq<char>
    decreases n,
{
    if n < 10 {
        seq![digit_char_spec(n)]
    } else {
        decimal(n / 10).push(digit_char_spec(n % 10))
    }
}

pub open spec fn digit_char_spec(d: nat) -> char {
    seq!['0', '1', '2', '3', '4', '5', '6', '7', '8', '9'][d as int]
}

fn digit_char(d: u128) -> (c: char)
    requires
        d < 10,
    ensures
        c == digit_char_spec(d as nat),
{
    match d {
        0 => '0',
        1 => '1',
        2 => '2',
        3 => '3',
        4 => '4',
        5 => '5',
        6 => '6',
        7 => '7',
        8 => '8',
        _ => '9',
    }
}

/// Appends the decimal digits of `n`.
pub fn push_decimal(n: u128, out: &mut Vec<char>)
    ensures
        final(out)@ == old(out)@ + decimal(n as nat),
    decreases n,
{
    if n >= 10 {
        push_decimal(n / 10, out);
    }
    out.push(digit_char(n % 10));
    proof {
        if n >= 10 {
            assert(old(out)@ + decimal((n / 10) as nat) + seq![digit_char_spec((n % 10) as nat)]
                =~= old(out)@ + decimal(n as nat));
        } else {
            assert(old(out)@ + seq![digit_char_spec(n as nat)] =~= old(out)@ + decimal(n as nat));
        }
    }
}

pub open spec fn json_suffix() -> Seq<char> {
    seq!['.', 'j', 's', 'o', 'n']
}

fn push_chars(out: &mut Vec<char>, s: &Vec<char>)
    ensures
        final(out)@ == old(out)@ + s@,
{
    let mut i: usize = 0;
    while i < s.len()
        invariant
            i <= s@.len(),
            out@ == old(out)@ + s@.subrange(0, i as int),
        decreases s@.len() - i,
    {
        out.push(s[i]);
        assert(old(out)@ + s@.subrange(0, i as int) + seq![s@[i as int]] =~= old(out)@ + s@.subrange(0, i + 1));
        i = i + 1;
    }
    assert(s@.subrange(0, s@.len() as int) =~= s@);
}

/// Name of the cache file of item `id`: `{id}.json`.
pub fn item_file_name(id: u64) -> (r: String)
    ensures
        r@ == decimal(id as nat) + json_suffix(),
{
    let mut out: Vec<char> = Vec::new();
    push_decimal(id as u128, &mut out);
    let suffix = vec!['.', 'j', 's', 'o', 'n'];
    push_chars(&mut out, &suffix);
    assert(out@ =~= decimal(id as nat) + json_suffix());
    string_of(&out)
}

/// Name of the temporary file that a write of `file_name` goes through:
/// `{file_name}.tmp.{pid}.{nanos}`, unique per process and instant.
pub fn temp_file_name(file_name: &str, pid: u32, nanos: u128) -> (r: String)
    ensures
        r@ == file_name@ + seq!['.', 't', 'm', 'p', '.'] + decimal(pid as nat) + seq!['.'] + decimal(
            nanos as nat,
        ),
{
    let mut out = chars_of(file_name);
    let tmp = vec!['.', 't', 'm', 'p', '.'];
    push_chars(&mut out, &tmp);
    push_decimal(pid as u128, &mut out);
    out.push('.');
    push_decimal(nanos, &mut out);
    assert(out@ =~= file_name@ + seq!['.', 't', 'm', 'p', '.'] + decimal(pid as nat) + seq!['.']
        + decimal(nanos as nat));
    string_of(&out)
}

pub open spec fn ends_with_json(name: Seq<char>) -> bool {
    name.len() >= 5 && name.subrange(name.len() - 5, name.len() as int) == json_suffix()
}

/// Whether a file in the cache directory has the shape of an item file; the
/// janitor deletes the others.
pub fn is_item_file_name(name: &str) -> (r: bool)
    ensures
        r == ends_with_json(name@),
{
    let chars = chars_of(name);
    let n = chars.len();
    if n < 5 {
        return false;
    }
    let r = chars[n - 5] == '.' && chars[n - 4] == 'j' && chars[n - 3] == 's' && chars[n - 2] == 'o'
        && chars[n - 1] == 'n';
    proof {
        let tail = name@.subrange(n - 5, n as int);
        if r {
            assert(tail =~= json_suffix());
        } else {
            assert(tail[0] != '.' || tail[1] != 'j' || tail[2] != 's' || tail[3] != 'o' || tail[4]
                != 'n');
        }
    }
    r
}

/// Seconds elapsed since `fetched_at`, never negative; clocks running
/// backwards give zero.
pub open spec fn age_spec(fetched_at: i64, now: i64) -> int {
    let d = now - fetched_at;
    if d <= 0 {
        0
    } else if d > i64::MAX {
        i64::MAX as int
    } else {
        d
    }
}

pub fn age_secs(fetched_at: i64, now: i64) -> (r: u64)
    ensures
        r == age_spec(fetched_at, now),
{
    let d: i128 = now as i128 - fetched_at as i128;
    if d <= 0 {
        0
    } else if d > i64::MAX as i128 {
        i64::MAX as u64
    } else {
        d as u64
    }
}

/// How a disk-cache entry of a given age may be used.
#[derive(Debug, Clone, Copy, PartialEq, Eq)]
pub enum Freshness {
    /// Within the freshness window: use as is.
    Fresh,
    /// Past freshness but still usable: return it and revalidate in the
    /// background.
    Stale { stale_secs: u64 },
    /// Too old to show: fetch from the network instead.
    Expired { stale_secs: u64 },
}

pub open spec fn freshness_spec(age: int, ttl_secs: u64, max_stale_secs: u64) -> Freshness {
    if age <= ttl_secs {
        Freshness::Fresh
    } else if age <= max_stale_secs {
        Freshness::Stale { stale_secs: age as u64 }
    } else {
        Freshness::Expired { stale_secs: age as u64 }
    }
}

/// Timing rules of the disk cache: the freshness window and the longer
/// window within which stale data is still served.
#[derive(Debug, Clone, Copy, PartialEq, Eq)]
pub struct DiskCachePolicy {
    pub ttl_secs: u64,
    pub max_stale_secs: u64,
}

/// Why a cache policy or retention period is refused.
#[derive(Debug, Clone, Copy, PartialEq, Eq)]
pub enum PolicyError {
    ZeroTtl,
    StaleWindowShorterThanTtl,
    ZeroRetention,
}

impl DiskCachePolicy {
    /// A valid policy has a positive freshness window and a stale window at
    /// least as long.
    pub open spec fn wf(&self) -> bool {
        self.ttl_secs > 0 && self.max_stale_secs >= self.ttl_secs
    }

    /// A policy; the freshness window must be positive and the stale window
    /// at least as long.
    pub fn new(ttl_secs: u64, max_stale_secs: u64) -> (r: Result<DiskCachePolicy, PolicyError>)
        ensures
            ttl_secs == 0 ==> r == Err::<DiskCachePolicy, PolicyError>(PolicyError::ZeroTtl),
            ttl_secs > 0 && max_stale_secs < ttl_secs ==> r == Err::<DiskCachePolicy, PolicyError>(
                PolicyError::StaleWindowShorterThanTtl,
            ),
            ttl_secs > 0 && max_stale_secs >= ttl_secs ==> r == Ok::<DiskCachePolicy, PolicyError>(
                DiskCachePolicy { ttl_secs, max_stale_secs },
            ),
            r matches Ok(p) ==> p.wf(),
    {
        if ttl_secs == 0 {
            Err(PolicyError::ZeroTtl)
        } else if max_stale_secs < ttl_secs {
            Err(PolicyError::StaleWindowShorterThanTtl)
        } else {
            Ok(DiskCachePolicy { ttl_secs, max_stale_secs })
        }
    }

    /// Classifies an entry fetched at `fetched_at` when read at `now`.
    pub fn classify(&self, fetched_at: i64, now: i64) -> (r: Freshness)
        ensures
            r == freshness_spec(age_spec(fetched_at, now), self.ttl_secs, self.max_stale_secs),
    {
        let age = age_secs(fetched_at, now);
        if age <= self.ttl_secs {
            Freshness::Fresh
        } else if age <= self.max_stale_secs {
            Freshness::Stale { stale_secs: age }
        } else {
            Freshness::Expired { stale_secs: age }
        }
    }
}

/// An entry is fresh up to the freshness window, stale and still served
/// (with a revalidation) up to the stale window, and fetched anew beyond it.
pub proof fn lemma_freshness_windows(p: DiskCachePolicy, fetched_at: i64, now: i64)
    requires
        p.wf(),
    ensures
        age_spec(fetched_at, now) <= p.ttl_secs ==> freshness_spec(
            age_spec(fetched_at, now),
            p.ttl_secs,
            p.max_stale_secs,
        ) is Fresh,
        p.ttl_secs < age_spec(fetched_at, now) <= p.max_stale_secs ==> freshness_spec(
            age_spec(fetched_at, now),
            p.ttl_secs,
            p.max_stale_secs,
        ) == (Freshness::Stale { stale_secs: age_spec(fetched_at, now) as u64 }),
        age_spec(fetched_at, now) > p.max_stale_secs ==> freshness_spec(age_spec(fetched_at, now), p.ttl_secs, p.max_stale_secs) is Expired,
{
}

/// The janitor's rule: an entry older than the retention period goes.
pub fn is_expired(fetched_at: i64, now: i64, max_age_secs: u64) -> (r: bool)
    ensures
        r == (age_spec(fetched_at, now) > max_age_secs),
{
    age_secs(fetched_at, now) > max_age_secs
}

/// A disk-cache record: when the item was fetched, and the item.
#[derive(Debug, Clone)]
pub struct CachedItem {
    pub fetched_at: i64,
    pub item: HnItem,
}

/// What the janitor does with one file of the cache directory.
#[derive(Debug, Clone, Copy, PartialEq, Eq)]
pub enum JanitorAction {
    /// A file whose name is not an item file: delete it.
    RemoveStray,
    /// An item file: read it and judge its age.
    Inspect,
}

pub fn janitor_action(file_name: &str) -> (r: JanitorAction)
    ensures
        r == (if ends_with_json(file_name@) {
            JanitorAction::Inspect
        } else {
            JanitorAction::RemoveStray
        }),
{
    if is_item_file_name(file_name) {
        JanitorAction::Inspect
    } else {
        JanitorAction::RemoveStray
    }
}

/// The retention period must be positive.
pub fn check_retention(max_age_secs: u64) -> (r: Result<(), PolicyError>)
    ensures
        r is Ok <==> max_age_secs > 0,
        r is Err ==> r == Err::<(), PolicyError>(PolicyError::ZeroRetention),
{
    if max_age_secs == 0 {
        Err(PolicyError::ZeroRetention)
    } else {
        Ok(())
    }
}

} // verus!
