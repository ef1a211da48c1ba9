//! Routing-subject derivation.
//!
//! Derived target subjects follow the `<origin>.<namespace>.<identifier>`
//! convention: a file chunk is republished under `filedrop.in.<chunk>`, an
//! enterprise-bus event under `salesforce.pubsub.in.<event_name>.<id>`, and
//! the file target logs one subject per delivered event, built from the
//! target file's name and a timestamp.  The engine treats subjects as opaque
//! UTF-8 byte strings; these functions are the only places that build them.
//!
//! The case folding applied to topic names is ASCII-only: topic names are
//! ASCII paths (`/event/Order__e`), so only the bytes `A` through `Z` need
//! lowering; a letter outside ASCII passes through unfolded.

use vstd::prelude::*;

verus! {

/// ASCII lowercasing of one byte.
pub open spec fn spec_lower_byte(b: u8) -> u8 {
    if 'A' as u8 <= b <= 'Z' as u8 {
        (b + 32) as u8
    } else {
        b
    }
}

/// One byte of a topic name as it appears in a subject: path separators
/// become subject separators, letters are lowercased.
pub open spec fn spec_topic_byte(b: u8) -> u8 {
    if b == '/' as u8 {
        '.' as u8
    } else {
        spec_lower_byte(b)
    }
}

/// The `salesforce.pubsub.in.` subject prefix.
pub open spec fn spec_salesforce_prefix() -> Seq<u8> {
    seq![
        's' as u8, 'a' as u8, 'l' as u8, 'e' as u8, 's' as u8, 'f' as u8, 'o' as u8, 'r' as u8,
        'c' as u8, 'e' as u8, '.' as u8, 'p' as u8, 'u' as u8, 'b' as u8, 's' as u8, 'u' as u8,
        'b' as u8, '.' as u8, 'i' as u8, 'n' as u8, '.' as u8,
    ]
}

/// The `filedrop.in.` subject prefix.
pub open spec fn spec_filedrop_prefix() -> Seq<u8> {
    seq![
        'f' as u8, 'i' as u8, 'l' as u8, 'e' as u8, 'd' as u8, 'r' as u8, 'o' as u8, 'p' as u8,
        '.' as u8, 'i' as u8, 'n' as u8, '.' as u8,
    ]
}

/// The event name under which a topic is republished: the topic with
/// separators converted and letters lowercased, without its leading
/// separator.
pub open spec fn spec_event_name(topic: Seq<u8>) -> Seq<u8> {
    topic.map_values(|b: u8| spec_topic_byte(b)).skip(1)
}

/// The subject of a republished enterprise-bus event:
/// `salesforce.pubsub.in.<event_name>.<id>`.
pub open spec fn spec_salesforce_subject(topic: Seq<u8>, id: Seq<u8>) -> Seq<u8> {
    spec_salesforce_prefix() + spec_event_name(topic) + seq!['.' as u8] + id
}

/// The subject of a republished file chunk: `filedrop.in.<chunk>`.
pub open spec fn spec_filedrop_subject(chunk: Seq<u8>) -> Seq<u8> {
    spec_filedrop_prefix() + chunk
}

/// The decimal digits of a number, most significant first.
pub open spec fn spec_u64_digits(n: nat) -> Seq<u8>
    decreases n,
{
    if n < 10 {
        seq![('0' as u8 + n) as u8]
    } else {
        spec_u64_digits(n / 10).push(('0' as u8 + n % 10) as u8)
    }
}

/// The decimal form of a signed number, with a leading minus where needed.
pub open spec fn spec_i64_digits(v: i64) -> Seq<u8> {
    if v >= 0 {
        spec_u64_digits(v as nat)
    } else {
        seq!['-' as u8] + spec_u64_digits((-(v as int)) as nat)
    }
}

/// The file name in a path: everything after the last separator.
pub open spec fn spec_filename_of(p: Seq<u8>) -> Seq<u8>
    decreases p.len(),
{
    if p.len() == 0 {
        p
    } else if p.last() == '/' as u8 {
        Seq::empty()
    } else {
        spec_filename_of(p.take(p.len() - 1)).push(p.last())
    }
}

/// The subject logged by the file target for one delivered event:
/// `<filename>.<timestamp>`.
pub open spec fn spec_file_subject(path: Seq<u8>, ts: i64) -> Seq<u8> {
    spec_filename_of(path) + seq!['.' as u8] + spec_i64_digits(ts)
}

fn salesforce_prefix() -> (r: Vec<u8>)
    ensures
        r@ == spec_salesforce_prefix(),
{
    let mut r: Vec<u8> = Vec::new();
    r.push('s' as u8);
    r.push('a' as u8);
    r.push('l' as u8);
    r.push('e' as u8);
    r.push('s' as u8);
    r.push('f' as u8);
    r.push('o' as u8);
    r.push('r' as u8);
    r.push('c' as u8);
    r.push('e' as u8);
    r.push('.' as u8);
    r.push('p' as u8);
    r.push('u' as u8);
    r.push('b' as u8);
    r.push('s' as u8);
    r.push('u' as u8);
    r.push('b' as u8);
    r.push('.' as u8);
    r.push('i' as u8);
    r.push('n' as u8);
    r.push('.' as u8);
    proof {
        assert(r@ =~= spec_salesforce_prefix());
    }
    r
}

fn filedrop_prefix() -> (r: Vec<u8>)
    ensures
        r@ == spec_filedrop_prefix(),
{
    let mut r: Vec<u8> = Vec::new();
    r.push('f' as u8);
    r.push('i' as u8);
    r.push('l' as u8);
    r.push('e' as u8);
    r.push('d' as u8);
    r.push('r' as u8);
    r.push('o' as u8);
    r.push('p' as u8);
    r.push('.' as u8);
    r.push('i' as u8);
    r.push('n' as u8);
    r.push('.' as u8);
    proof {
        assert(r@ =~= spec_filedrop_prefix());
    }
    r
}

/// Decimal digits of a 64-bit number.
pub fn u64_digits(n: u64) -> (r: Vec<u8>)
    ensures
        r@ == spec_u64_digits(n as nat),
    decreases n,
{
    if n < 10 {
        let mut r: Vec<u8> = Vec::new();
        r.push('0' as u8 + (n as u8));
        proof {
            assert(r@ =~= spec_u64_digits(n as nat));
        }
        r
    } else {
        let mut r = u64_digits(n / 10);
        r.push('0' as u8 + ((n % 10) as u8));
        r
    }
}

/// Decimal form of a signed 64-bit number.
pub fn i64_digits(v: i64) -> (r: Vec<u8>)
    ensures
        r@ == spec_i64_digits(v),
{
    if v >= 0 {
        u64_digits(v as u64)
    } else {
        let mag: u64 = if v == i64::MIN {
            9223372036854775808u64
        } else {
            (-v) as u64
        };
        proof {
            assert(mag as nat == (-(v as int)) as nat);
        }
        let mut r: Vec<u8> = Vec::new();
        r.push('-' as u8);
        let d = u64_digits(mag);
        crate::text::append_bytes(&mut r, &d);
        proof {
            assert(r@ =~= spec_i64_digits(v));
        }
        r
    }
}

/// Subject under which a file chunk is republished.
pub fn filedrop_subject(chunk: &Vec<u8>) -> (r: Vec<u8>)
    ensures
        r@ == spec_filedrop_subject(chunk@),
{
    let mut r = filedrop_prefix();
    crate::text::append_bytes(&mut r, chunk);
    r
}

/// Subject under which an enterprise-bus event is republished.  The topic
/// name must carry at least its leading separator.
pub fn salesforce_subject(topic: &Vec<u8>, id: &Vec<u8>) -> (r: Vec<u8>)
    requires
        topic@.len() >= 1,
    ensures
        r@ == spec_salesforce_subject(topic@, id@),
{
    let mut r = salesforce_prefix();
    let mut i: usize = 1;
    while i < topic.len()
        invariant
            1 <= i <= topic@.len(),
            r@ == spec_salesforce_prefix() + topic@.map_values(|b: u8| spec_topic_byte(b)).skip(
                1,
            ).take(i - 1),
        decreases topic@.len() - i,
    {
        let b = topic[i];
        let out: u8 = if b == '/' as u8 {
            '.' as u8
        } else if 'A' as u8 <= b && b <= 'Z' as u8 {
            b + 32
        } else {
            b
        };
        proof {
            assert(out == spec_topic_byte(topic@[i as int]));
        }
        r.push(out);
        proof {
            let mapped = topic@.map_values(|x: u8| spec_topic_byte(x));
            assert(mapped.skip(1).take(i as int) =~= mapped.skip(1).take(i - 1).push(
                mapped[i as int],
            ));
            assert(r@ =~= spec_salesforce_prefix() + mapped.skip(1).take(i as int));
        }
        i = i + 1;
    }
    proof {
        let mapped = topic@.map_values(|x: u8| spec_topic_byte(x));
        assert(mapped.skip(1).take(topic@.len() - 1) =~= mapped.skip(1));
        assert(r@ =~= spec_salesforce_prefix() + spec_event_name(topic@));
    }
    r.push('.' as u8);
    let mut r2 = r;
    crate::text::append_bytes(&mut r2, id);
    proof {
        assert(r2@ =~= spec_salesforce_subject(topic@, id@));
    }
    r2
}

/// The file name in a path: everything after the last separator.
pub fn filename_of(path: &Vec<u8>) -> (r: Vec<u8>)
    ensures
        r@ == spec_filename_of(path@),
{
    let mut start: usize = 0;
    let mut k: usize = 0;
    while k < path.len()
        invariant
            k <= path@.len(),
            start <= k,
            start > 0 ==> path@[start - 1] == '/' as u8,
            forall|j: int| start <= j < k ==> path@[j] != '/' as u8,
        decreases path@.len() - k,
    {
        if path[k] == '/' as u8 {
            start = k + 1;
        }
        k = k + 1;
    }
    proof {
        lemma_filename_suffix(path@, start as int);
    }
    let mut r: Vec<u8> = Vec::new();
    let mut i: usize = start;
    while i < path.len()
        invariant
            start <= i <= path@.len(),
            r@ == path@.subrange(start as int, i as int),
        decreases path@.len() - i,
    {
        r.push(path[i]);
        i = i + 1;
        proof {
            assert(r@ =~= path@.subrange(start as int, i as int));
        }
    }
    proof {
        assert(r@ =~= path@.skip(start as int));
    }
    r
}

/// After the last separator, the file name is the remaining suffix.
proof fn lemma_filename_suffix(p: Seq<u8>, start: int)
    requires
        0 <= start <= p.len(),
        start > 0 ==> p[start - 1] == '/' as u8,
        forall|j: int| start <= j < p.len() ==> p[j] != '/' as u8,
    ensures
        spec_filename_of(p) == p.skip(start),
    decreases p.len(),
{
    if p.len() == 0 {
        assert(p.skip(start) =~= p);
    } else if start == p.len() {
        assert(p.last() == '/' as u8);
        assert(p.skip(start) =~= Seq::<u8>::empty());
    } else {
        assert(p.last() != '/' as u8);
        lemma_filename_suffix(p.take(p.len() - 1), start);
        assert(p.take(p.len() - 1).skip(start).push(p.last()) =~= p.skip(start));
    }
}

/// Subject logged by the file target for one delivered event.
pub fn file_subject(path: &Vec<u8>, ts: i64) -> (r: Vec<u8>)
    ensures
        r@ == spec_file_subject(path@, ts),
{
    let mut r = filename_of(path);
    r.push('.' as u8);
    let d = i64_digits(ts);
    crate::text::append_bytes(&mut r, &d);
    proof {
        assert(r@ =~= spec_file_subject(path@, ts));
    }
    r
}

} // verus!
