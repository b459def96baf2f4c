//! The binary job list: protobuf wire format of
//! `ScrapingRequests { repeated ScrapingRequest requests = 1; }`,
//! `ScrapingRequest { oneof source { Test test = 1; Amzn amzn = 2; } }`,
//! `Test {}` and `Amzn { string product_code = 1; }`.
//!
//! Fields of other numbers are skipped, groups included, and a later
//! occurrence of a singular field overrides or merges into an earlier one.
//! Nesting has a budget: fields of the list are read with 100, those of an
//! entry with 99, those of a source with 98, and the fields inside a group
//! with one less than the group; no field is read with a budget of 0.
use vstd::prelude::*;
use vstd::utf8::*;
use crate::jobs::{Amzn, Job, JobView, Test};

verus! {

pub open spec fn pow128(i: nat) -> nat
    decreases i,
{
    if i == 0 {
        1
    } else {
        128 * pow128((i - 1) as nat)
    }
}

/// Base-128 varint read from digit `i` on (digit `i` at `pos + i`), within
/// `[.., end)`: its value counted from digit `i`, and the position after it.
/// At most ten digits; the tenth may only be 0 or 1.
pub open spec fn varint_digits(b: Seq<u8>, pos: int, end: int, i: nat) -> Option<(nat, int)>
    decreases 10 - i,
{
    if i >= 10 || pos + i < 0 || pos + i >= end || pos + i >= b.len() {
        None
    } else {
        let byte = b[pos + i];
        if i == 9 && byte >= 2 {
            None
        } else if byte < 128 {
            Some((byte as nat, pos + i + 1))
        } else {
            match varint_digits(b, pos, end, i + 1) {
                Some((v, e)) => Some(((byte - 128) as nat + 128 * v, e)),
                None => None,
            }
        }
    }
}

/// The varint at `pos`: its value and the position after it.
pub open spec fn varint_at(b: Seq<u8>, pos: int, end: int) -> Option<(nat, int)> {
    varint_digits(b, pos, end, 0)
}

/// The field at `pos`, read with nesting budget `c`: field number, wire
/// type, and the bounds of its body. For a length-delimited field the body
/// is the delimited bytes; for a group it runs to the end of its end-group key.
pub open spec fn field_at(b: Seq<u8>, pos: int, end: int, c: nat) -> Option<(nat, nat, int, int)>
    decreases c, end - pos, 0nat,
{
    match varint_at(b, pos, end) {
        None => None,
        Some((key, p)) => {
            let wire = key % 8;
            let tag = key / 8;
            if c == 0 || key > u32::MAX || tag == 0 {
                None
            } else if wire == 0 {
                match varint_at(b, p, end) {
                    Some((_, e)) => Some((tag, wire, p, e)),
                    None => None,
                }
            } else if wire == 1 {
                if p + 8 <= end {
                    Some((tag, wire, p, p + 8))
                } else {
                    None
                }
            } else if wire == 2 {
                match varint_at(b, p, end) {
                    Some((len, s)) => if s + len <= end {
                        Some((tag, wire, s, s + len))
                    } else {
                        None
                    },
                    None => None,
                }
            } else if wire == 3 {
                match group_end(b, p, end, tag, (c - 1) as nat) {
                    Some(e) => if p < e <= end {
                        Some((tag, wire, p, e))
                    } else {
                        None
                    },
                    None => None,
                }
            } else if wire == 5 {
                if p + 4 <= end {
                    Some((tag, wire, p, p + 4))
                } else {
                    None
                }
            } else {
                None
            }
        },
    }
}

/// The position after the end-group key of number `tag` that closes the
/// group whose fields start at `q`, those fields read with budget `c`.
pub open spec fn group_end(b: Seq<u8>, q: int, end: int, tag: nat, c: nat) -> Option<int>
    decreases c, end - q, 1nat,
{
    match varint_at(b, q, end) {
        None => None,
        Some((key, p)) => if key > u32::MAX || key / 8 == 0 {
            None
        } else if key % 8 == 4 {
            if key / 8 == tag {
                Some(p)
            } else {
                None
            }
        } else {
            match field_at(b, q, end, c) {
                Some((_, _, _, e)) => if q < e <= end {
                    group_end(b, e, end, tag, c)
                } else {
                    None
                },
                None => None,
            }
        },
    }
}

/// `[pos, end)` is a well-formed sequence of fields.
pub open spec fn fields_ok(b: Seq<u8>, pos: int, end: int) -> bool
    decreases end - pos,
{
    if pos >= end {
        true
    } else {
        match field_at(b, pos, end, 98) {
            Some((_, _, _, e)) => pos < e <= end && fields_ok(b, e, end),
            None => false,
        }
    }
}

/// Product code of an `Amzn` message in `[pos, end)`, starting from `code`.
pub open spec fn amzn_from(b: Seq<u8>, pos: int, end: int, code: Seq<char>) -> Option<Seq<char>>
    decreases end - pos,
{
    if pos >= end {
        Some(code)
    } else {
        match field_at(b, pos, end, 98) {
            None => None,
            Some((tag, wire, s, e)) => if e <= pos || e > end {
                None
            } else if tag == 1 {
                if wire != 2 || !valid_utf8(b.subrange(s, e)) {
                    None
                } else {
                    amzn_from(b, e, end, decode_utf8(b.subrange(s, e)))
                }
            } else {
                amzn_from(b, e, end, code)
            },
        }
    }
}

/// Source of a `ScrapingRequest` message in `[pos, end)`, starting from `src`.
pub open spec fn request_from(b: Seq<u8>, pos: int, end: int, src: Option<JobView>) -> Option<
    Option<JobView>,
>
    decreases end - pos,
{
    if pos >= end {
        Some(src)
    } else {
        match field_at(b, pos, end, 99) {
            None => None,
            Some((tag, wire, s, e)) => if e <= pos || e > end {
                None
            } else if tag == 1 {
                if wire != 2 || !fields_ok(b, s, e) {
                    None
                } else {
                    request_from(b, e, end, Some(JobView::Test))
                }
            } else if tag == 2 {
                let start = match src {
                    Some(JobView::Amzn(c)) => c,
                    _ => Seq::empty(),
                };
                if wire != 2 {
                    None
                } else {
                    match amzn_from(b, s, e, start) {
                        Some(code) => request_from(b, e, end, Some(JobView::Amzn(code))),
                        None => None,
                    }
                }
            } else {
                request_from(b, e, end, src)
            },
        }
    }
}

/// Entries of a `ScrapingRequests` message in `[pos, end)`, after `acc`.
pub open spec fn requests_from(
    b: Seq<u8>,
    pos: int,
    end: int,
    acc: Seq<Option<JobView>>,
) -> Option<Seq<Option<JobView>>>
    decreases end - pos,
{
    if pos >= end {
        Some(acc)
    } else {
        match field_at(b, pos, end, 100) {
            None => None,
            Some((tag, wire, s, e)) => if e <= pos || e > end {
                None
            } else if tag == 1 {
                if wire != 2 {
                    None
                } else {
                    match request_from(b, s, e, None) {
                        Some(r) => requests_from(b, e, end, acc.push(r)),
                        None => None,
                    }
                }
            } else {
                requests_from(b, e, end, acc)
            },
        }
    }
}

/// The entries of a job list, each with the source it selects (`None`: no
/// source this format knows); `None` where the bytes are malformed.
pub open spec fn job_entries(b: Seq<u8>) -> Option<Seq<Option<JobView>>> {
    requests_from(b, 0, b.len() as int, Seq::empty())
}

/// The entries that select a known source, in order.
pub open spec fn recognized(entries: Seq<Option<JobView>>) -> Seq<JobView>
    decreases entries.len(),
{
    if entries.len() == 0 {
        Seq::empty()
    } else {
        let prev = recognized(entries.drop_last());
        match entries.last() {
            Some(j) => prev.push(j),
            None => prev,
        }
    }
}

/// Entries that select a known source.
pub open spec fn count_recognized(entries: Seq<Option<JobView>>) -> nat
    decreases entries.len(),
{
    if entries.len() == 0 {
        0
    } else {
        count_recognized(entries.drop_last()) + if entries.last() is Some {
            1nat
        } else {
            0nat
        }
    }
}

pub open spec fn entry_view(e: Option<Job>) -> Option<JobView> {
    match e {
        Some(j) => Some(j@),
        None => None,
    }
}

pub open spec fn jobs_view(v: Seq<Job>) -> Seq<JobView> {
    v.map_values(|j: Job| j@)
}

proof fn lemma_pow128_mono(i: nat, j: nat)
    requires
        i <= j,
    ensures
        pow128(i) <= pow128(j),
    decreases j,
{
    if i < j {
        lemma_pow128_mono(i, (j - 1) as nat);
    }
}

proof fn lemma_pow128_9()
    ensures
        pow128(9) == 0x8000_0000_0000_0000,
{
    reveal_with_fuel(pow128, 10);
}

proof fn lemma_varint_bounds(b: Seq<u8>, pos: int, end: int, i: nat)
    ensures
        varint_digits(b, pos, end, i) matches Some((_, e)) ==> pos + i < e <= end,
    decreases 10 - i,
{
    if i < 10 {
        lemma_varint_bounds(b, pos, end, i + 1);
    }
}

proof fn lemma_field_bounds(b: Seq<u8>, pos: int, end: int, c: nat)
    ensures
        field_at(b, pos, end, c) matches Some((_, _, s, e)) ==> pos < s <= e <= end,
{
    lemma_varint_bounds(b, pos, end, 0);
    if let Some((_, p)) = varint_at(b, pos, end) {
        lemma_varint_bounds(b, p, end, 0);
    }
}

/// Reads the varint at `pos` within `[.., end)`.
fn read_varint(b: &[u8], pos: usize, end: usize) -> (r: Option<(u64, usize)>)
    requires
        pos <= end <= b@.len(),
    ensures
        match varint_at(b@, pos as int, end as int) {
            Some((v, e)) => r == Some((v as u64, e as usize)) && v <= u64::MAX && pos < e <= end,
            None => r is None,
        },
{
    proof {
        lemma_varint_bounds(b@, pos as int, end as int, 0);
        lemma_pow128_9();
    }
    let mut i: usize = 0;
    let mut acc: u64 = 0;
    let mut mult: u64 = 1;
    loop
        invariant
            i <= 9,
            pos <= end <= b@.len(),
            mult == pow128(i as nat),
            acc < mult,
            pow128(9) == 0x8000_0000_0000_0000,
            varint_at(b@, pos as int, end as int) == match varint_digits(
                b@,
                pos as int,
                end as int,
                i as nat,
            ) {
                Some((v, e)) => Some(((acc + mult * v) as nat, e)),
                None => None,
            },
        decreases 10 - i,
    {
        if i >= end - pos {
            return None;
        }
        let byte = b[pos + i];
        if i == 9 && byte >= 2 {
            return None;
        }
        proof {
            lemma_pow128_mono(i as nat, 9);
        }
        if byte < 128 {
            if i < 9 {
                proof {
                    lemma_pow128_mono((i + 1) as nat, 9);
                    assert(pow128((i + 1) as nat) == 128 * pow128(i as nat));
                }
                assert(acc + mult * byte < mult * 128) by (nonlinear_arith)
                    requires
                        acc < mult,
                        byte < 128,
                ;
            } else {
                assert(acc + mult * byte < 2 * mult) by (nonlinear_arith)
                    requires
                        acc < mult,
                        byte < 2,
                ;
            }
            let v = acc + mult * (byte as u64);
            return Some((v, pos + i + 1));
        }
        let digit = (byte - 128) as u64;
        proof {
            lemma_pow128_mono((i + 1) as nat, 9);
            assert(pow128((i + 1) as nat) == 128 * pow128(i as nat));
        }
        assert(acc + mult * digit < mult * 128) by (nonlinear_arith)
            requires
                acc < mult,
                digit < 128,
        ;
        let ghost old_acc = acc;
        let ghost old_mult = mult;
        acc = acc + mult * digit;
        mult = mult * 128;
        i = i + 1;
        proof {
            match varint_digits(b@, pos as int, end as int, i as nat) {
                Some((v, e)) => {
                    assert(old_acc + old_mult * (digit + 128 * v) == acc + mult * v)
                        by (nonlinear_arith)
                        requires
                            acc == old_acc + old_mult * digit,
                            mult == old_mult * 128,
                    ;
                },
                None => {},
            }
        }
    }
}

/// Reads the field at `pos` within `[.., end)` with nesting budget `c`:
/// number, wire type, body bounds.
fn read_field(b: &[u8], pos: usize, end: usize, c: u32) -> (r: Option<(u64, u64, usize, usize)>)
    requires
        pos <= end <= b@.len(),
    ensures
        match field_at(b@, pos as int, end as int, c as nat) {
            Some((t, w, s, e)) => r == Some((t as u64, w as u64, s as usize, e as usize)) && pos
                < s <= e <= end,
            None => r is None,
        },
    decreases c,
{
    proof {
        lemma_field_bounds(b@, pos as int, end as int, c as nat);
    }
    let (key, p) = match read_varint(b, pos, end) {
        Some(kp) => kp,
        None => return None,
    };
    let wire = key % 8;
    let tag = key / 8;
    if c == 0 || key > 0xFFFF_FFFF || tag == 0 {
        return None;
    }
    if wire == 0 {
        match read_varint(b, p, end) {
            Some((_, e)) => Some((tag, wire, p, e)),
            None => None,
        }
    } else if wire == 1 {
        if end - p >= 8 {
            Some((tag, wire, p, p + 8))
        } else {
            None
        }
    } else if wire == 2 {
        match read_varint(b, p, end) {
            Some((len, s)) => if len <= (end - s) as u64 {
                Some((tag, wire, s, s + len as usize))
            } else {
                None
            },
            None => None,
        }
    } else if wire == 3 {
        let ghost inner = (c - 1) as nat;
        assert(field_at(b@, pos as int, end as int, c as nat) == match group_end(
            b@,
            p as int,
            end as int,
            tag as nat,
            inner,
        ) {
            Some(e) => if p < e <= end {
                Some((tag as nat, 3nat, p as int, e))
            } else {
                None
            },
            None => None,
        });
        let mut q = p;
        while q < end
            invariant
                pos < p <= q <= end <= b@.len(),
                0 < c,
                wire == 3,
                inner == c - 1,
                field_at(b@, pos as int, end as int, c as nat) == match group_end(
                    b@,
                    p as int,
                    end as int,
                    tag as nat,
                    inner,
                ) {
                    Some(e) => if p < e <= end {
                        Some((tag as nat, 3nat, p as int, e))
                    } else {
                        None
                    },
                    None => None,
                },
                group_end(b@, p as int, end as int, tag as nat, inner) == group_end(
                    b@,
                    q as int,
                    end as int,
                    tag as nat,
                    inner,
                ),
            decreases end - q,
        {
            let ghost g = group_end(b@, q as int, end as int, tag as nat, inner);
            let (k, after) = match read_varint(b, q, end) {
                Some(ka) => ka,
                None => {
                    assert(g is None);
                    return None;
                },
            };
            if k > 0xFFFF_FFFF || k / 8 == 0 {
                assert(g is None);
                return None;
            }
            if k % 8 == 4 {
                if k / 8 == tag {
                    assert(g == Some(after as int));
                    return Some((tag, wire, p, after));
                }
                assert(g is None);
                return None;
            }
            match read_field(b, q, end, c - 1) {
                Some((_, _, _, e)) => {
                    assert(g == group_end(b@, e as int, end as int, tag as nat, inner));
                    q = e;
                },
                None => {
                    assert(g is None);
                    return None;
                },
            }
        }
        proof {
            assert(varint_at(b@, q as int, end as int) is None);
        }
        None
    } else if wire == 5 {
        if end - p >= 4 {
            Some((tag, wire, p, p + 4))
        } else {
            None
        }
    } else {
        None
    }
}

/// Whether `[pos, end)` is a well-formed sequence of fields.
fn check_fields(b: &[u8], pos: usize, end: usize) -> (r: bool)
    requires
        pos <= end <= b@.len(),
    ensures
        r == fields_ok(b@, pos as int, end as int),
{
    let mut p = pos;
    while p < end
        invariant
            pos <= p <= end <= b@.len(),
            fields_ok(b@, pos as int, end as int) == fields_ok(b@, p as int, end as int),
        decreases end - p,
    {
        match read_field(b, p, end, 98) {
            Some((_, _, _, e)) => {
                p = e;
            },
            None => return false,
        }
    }
    true
}

/// Relies on `std::str::from_utf8`: it accepts exactly the valid UTF-8 byte
/// sequences and reads them as the characters they encode.
#[verifier::external_body]
fn utf8_text(b: &[u8]) -> (r: Option<String>)
    ensures
        match r {
            Some(s) => valid_utf8(b@) && s@ == decode_utf8(b@),
            None => !valid_utf8(b@),
        },
{
    std::str::from_utf8(b).ok().map(|s| s.to_string())
}

/// Reads an `Amzn` message in `[pos, end)` into `code`.
fn read_amzn(b: &[u8], pos: usize, end: usize, start: String) -> (r: Option<String>)
    requires
        pos <= end <= b@.len(),
    ensures
        match amzn_from(b@, pos as int, end as int, start@) {
            Some(c) => r matches Some(x) && x@ == c,
            None => r is None,
        },
{
    let mut p = pos;
    let mut code = start;
    while p < end
        invariant
            pos <= p <= end <= b@.len(),
            amzn_from(b@, pos as int, end as int, start@) == amzn_from(
                b@,
                p as int,
                end as int,
                code@,
            ),
        decreases end - p,
    {
        match read_field(b, p, end, 98) {
            Some((tag, wire, s, e)) => {
                if tag == 1 {
                    if wire != 2 {
                        return None;
                    }
                    match utf8_text(&b[s..e]) {
                        Some(text) => {
                            code = text;
                        },
                        None => return None,
                    }
                }
                p = e;
            },
            None => return None,
        }
    }
    Some(code)
}

/// Reads a `ScrapingRequest` message in `[pos, end)`: the job it selects, if any.
fn read_request(b: &[u8], pos: usize, end: usize) -> (r: Option<Option<Job>>)
    requires
        pos <= end <= b@.len(),
    ensures
        match request_from(b@, pos as int, end as int, None) {
            Some(src) => r matches Some(x) && src == entry_view(x),
            None => r is None,
        },
{
    let mut p = pos;
    let mut src: Option<Job> = None;
    while p < end
        invariant
            pos <= p <= end <= b@.len(),
            request_from(b@, pos as int, end as int, None) == request_from(
                b@,
                p as int,
                end as int,
                entry_view(src),
            ),
        decreases end - p,
    {
        match read_field(b, p, end, 99) {
            Some((tag, wire, s, e)) => {
                if tag == 1 {
                    if wire != 2 || !check_fields(b, s, e) {
                        return None;
                    }
                    src = Some(Job::Test(Test {  }));
                } else if tag == 2 {
                    if wire != 2 {
                        return None;
                    }
                    let start = match src {
                        Some(Job::Amzn(a)) => a.product_code,
                        _ => String::new(),
                    };
                    match read_amzn(b, s, e, start) {
                        Some(code) => {
                            src = Some(Job::Amzn(Amzn { product_code: code }));
                        },
                        None => return None,
                    }
                }
                p = e;
            },
            None => return None,
        }
    }
    Some(src)
}

/// Why a job list could not be read.
#[derive(Debug, Clone, PartialEq, Eq)]
pub enum WireError {
    /// The bytes are not a well-formed job list.
    Malformed,
}

/// Decodes a job list, keeping, in order, the entries that select a known
/// source and dropping the others.
pub fn decode_jobs(b: &[u8]) -> (r: Result<Vec<Job>, WireError>)
    ensures
        match job_entries(b@) {
            Some(entries) => r matches Ok(v) && jobs_view(v@) == recognized(entries),
            None => r == Err::<Vec<Job>, WireError>(WireError::Malformed),
        },
{
    let end = b.len();
    let mut p: usize = 0;
    let mut jobs: Vec<Job> = Vec::new();
    let ghost mut acc: Seq<Option<JobView>> = Seq::empty();
    while p < end
        invariant
            p <= end == b@.len(),
            job_entries(b@) == requests_from(b@, p as int, end as int, acc),
            jobs_view(jobs@) == recognized(acc),
        decreases end - p,
    {
        match read_field(b, p, end, 100) {
            Some((tag, wire, s, e)) => {
                if tag == 1 {
                    if wire != 2 {
                        return Err(WireError::Malformed);
                    }
                    match read_request(b, s, e) {
                        Some(entry) => {
                            let ghost ev = entry_view(entry);
                            proof {
                                assert(acc.push(ev).drop_last() == acc);
                            }
                            match entry {
                                Some(j) => {
                                    jobs.push(j);
                                },
                                None => {},
                            }
                            proof {
                                acc = acc.push(ev);
                                assert(jobs_view(jobs@) =~= recognized(acc));
                            }
                        },
                        None => return Err(WireError::Malformed),
                    }
                }
                p = e;
            },
            None => return Err(WireError::Malformed),
        }
    }
    Ok(jobs)
}

/// Decoding keeps exactly the entries that select a known source, in their
/// order: their number is the count of such entries, an entry that selects
/// none adds nothing, and the jobs of two runs of entries are those of the
/// first followed by those of the second.
pub proof fn lemma_recognized(a: Seq<Option<JobView>>, b: Seq<Option<JobView>>)
    ensures
        recognized(a).len() == count_recognized(a),
        recognized(a.push(None)) == recognized(a),
        recognized(a + b) == recognized(a) + recognized(b),
    decreases b.len(),
{
    lemma_recognized_len(a);
    assert(a.push(None).drop_last() == a);
    if b.len() == 0 {
        assert(a + b == a);
        assert(recognized(b) == Seq::<JobView>::empty());
        assert(recognized(a) + recognized(b) == recognized(a));
    } else {
        lemma_recognized(a, b.drop_last());
        assert((a + b).drop_last() == a + b.drop_last());
        assert((a + b).last() == b.last());
    }
}

proof fn lemma_recognized_len(a: Seq<Option<JobView>>)
    ensures
        recognized(a).len() == count_recognized(a),
    decreases a.len(),
{
    if a.len() > 0 {
        lemma_recognized_len(a.drop_last());
    }
}

/// The varint of `v`: base-128 digits, least significant first.
pub open spec fn varint_bytes(v: nat) -> Seq<u8>
    decreases v,
{
    if v < 128 {
        seq![v as u8]
    } else {
        seq![(v % 128 + 128) as u8] + varint_bytes(v / 128)
    }
}

/// A length-delimited field of number `tag` with body `body`.
pub open spec fn delimited(tag: nat, body: Seq<u8>) -> Seq<u8> {
    varint_bytes(tag * 8 + 2) + varint_bytes(body.len()) + body
}

/// The bytes of one entry: its source, if it selects one.
pub open spec fn encode_entry(e: Option<JobView>) -> Seq<u8> {
    match e {
        None => Seq::empty(),
        Some(JobView::Test) => delimited(1, Seq::empty()),
        Some(JobView::Amzn(code)) => delimited(2, delimited(1, encode_utf8(code))),
    }
}

/// The bytes of a job list holding `es`, in order.
pub open spec fn encode_entries(es: Seq<Option<JobView>>) -> Seq<u8>
    decreases es.len(),
{
    if es.len() == 0 {
        Seq::empty()
    } else {
        delimited(1, encode_entry(es[0])) + encode_entries(es.drop_first())
    }
}

proof fn lemma_varint_read(b: Seq<u8>, pos: int, end: int, i: nat, v: nat)
    requires
        0 <= pos,
        i <= 9,
        v < pow128((9 - i) as nat),
        pos + i + varint_bytes(v).len() <= end <= b.len(),
        b.subrange(pos + i, pos + i + varint_bytes(v).len()) == varint_bytes(v),
    ensures
        varint_digits(b, pos, end, i) == Some((v, pos + i + varint_bytes(v).len())),
    decreases v,
{
    let vb = varint_bytes(v);
    assert(b[pos + i] == b.subrange(pos + i, pos + i + vb.len())[0]);
    if v >= 128 {
        let rest = varint_bytes(v / 128);
        if i >= 8 {
            reveal_with_fuel(pow128, 2);
        }
        assert(i < 8);
        assert(pow128((9 - i) as nat) == 128 * pow128((9 - (i + 1)) as nat));
        assert(v / 128 < pow128((9 - (i + 1)) as nat)) by (nonlinear_arith)
            requires
                v < 128 * pow128((9 - (i + 1)) as nat),
        ;
        assert(b.subrange(pos + (i + 1), pos + (i + 1) + rest.len()) =~= rest) by {
            assert(vb =~= seq![(v % 128 + 128) as u8] + rest);
            assert forall|k: int| 0 <= k < rest.len() implies b.subrange(
                pos + (i + 1),
                pos + (i + 1) + rest.len(),
            )[k] == rest[k] by {
                assert(b.subrange(pos + i, pos + i + vb.len())[k + 1] == vb[k + 1]);
            }
        }
        lemma_varint_read(b, pos, end, i + 1, v / 128);
    } else {
        if i == 9 {
            reveal_with_fuel(pow128, 1);
        }
    }
}

proof fn lemma_varint_short(v: nat)
    ensures
        v < 128 ==> varint_bytes(v) == seq![v as u8],
        varint_bytes(v).len() >= 1,
    decreases v,
{
    if v >= 128 {
        lemma_varint_short(v / 128);
    }
}

/// `b` holds `d` at `pos`.
pub open spec fn holds_at(b: Seq<u8>, pos: int, d: Seq<u8>) -> bool {
    0 <= pos && pos + d.len() <= b.len() && b.subrange(pos, pos + d.len()) == d
}

proof fn lemma_holds_split(b: Seq<u8>, pos: int, x: Seq<u8>, y: Seq<u8>)
    requires
        holds_at(b, pos, x + y),
    ensures
        holds_at(b, pos, x),
        holds_at(b, pos + x.len(), y),
{
    assert forall|k: int| 0 <= k < x.len() implies b.subrange(pos, pos + x.len())[k] == x[k] by {
        assert(b.subrange(pos, pos + (x + y).len())[k] == (x + y)[k]);
    }
    assert(b.subrange(pos, pos + x.len()) =~= x);
    assert forall|k: int| 0 <= k < y.len() implies b.subrange(
        pos + x.len(),
        pos + x.len() + y.len(),
    )[k] == y[k] by {
        assert(b.subrange(pos, pos + (x + y).len())[x.len() + k] == (x + y)[x.len() + k]);
    }
    assert(b.subrange(pos + x.len(), pos + x.len() + y.len()) =~= y);
}

proof fn lemma_delimited_field(b: Seq<u8>, pos: int, end: int, tag: nat, body: Seq<u8>, c: nat)
    requires
        c > 0,
        1 <= tag < 16,
        body.len() < pow128(9),
        holds_at(b, pos, delimited(tag, body)),
        pos + delimited(tag, body).len() <= end <= b.len(),
    ensures
        field_at(b, pos, end, c) == Some(
            (
                tag,
                2nat,
                pos + delimited(tag, body).len() - body.len(),
                pos + delimited(tag, body).len(),
            ),
        ),
        holds_at(b, pos + delimited(tag, body).len() - body.len(), body),
{
    let key = tag * 8 + 2;
    let kb = varint_bytes(key);
    let lb = varint_bytes(body.len());
    lemma_varint_short(key);
    lemma_varint_short(body.len());
    assert(delimited(tag, body) == kb + (lb + body));
    lemma_holds_split(b, pos, kb, lb + body);
    lemma_holds_split(b, pos + kb.len(), lb, body);
    assert(pow128(9) >= 1) by {
        lemma_pow128_mono(0, 9);
    }
    lemma_varint_read(b, pos, end, 0, key);
    lemma_varint_read(b, pos + 1, end, 0, body.len());
    assert(key % 8 == 2 && key / 8 == tag);
}

proof fn lemma_amzn_read(b: Seq<u8>, pos: int, code: Seq<char>, start: Seq<char>)
    requires
        encode_utf8(code).len() < pow128(9),
        holds_at(b, pos, delimited(1, encode_utf8(code))),
    ensures
        amzn_from(b, pos, pos + delimited(1, encode_utf8(code)).len(), start) == Some(code),
{
    let body = encode_utf8(code);
    let end = pos + delimited(1, body).len();
    lemma_delimited_field(b, pos, end, 1, body, 98);
    let s = end - body.len();
    assert(b.subrange(s, end) == body);
    encode_utf8_valid_utf8(code);
    encode_utf8_decode_utf8(code);
    lemma_field_bounds(b, pos, end, 98);
    assert(amzn_from(b, end, end, code) == Some(code));
}

proof fn lemma_entry_read(b: Seq<u8>, pos: int, e: Option<JobView>)
    requires
        encode_entry(e).len() < pow128(9),
        holds_at(b, pos, encode_entry(e)),
    ensures
        request_from(b, pos, pos + encode_entry(e).len(), None) == Some(e),
{
    let end = pos + encode_entry(e).len();
    lemma_field_bounds(b, pos, end, 99);
    match e {
        None => {},
        Some(JobView::Test) => {
            lemma_delimited_field(b, pos, end, 1, Seq::empty(), 99);
            assert(fields_ok(b, end, end));
            assert(request_from(b, end, end, e) == Some(e));
        },
        Some(JobView::Amzn(code)) => {
            let inner = delimited(1, encode_utf8(code));
            assert(inner.len() < pow128(9));
            assert(encode_utf8(code).len() < pow128(9));
            lemma_delimited_field(b, pos, end, 2, inner, 99);
            lemma_amzn_read(b, end - inner.len(), code, Seq::empty());
            assert(request_from(b, end, end, e) == Some(e));
        },
    }
}

proof fn lemma_entries_read(
    b: Seq<u8>,
    pos: int,
    es: Seq<Option<JobView>>,
    acc: Seq<Option<JobView>>,
)
    requires
        encode_entries(es).len() < pow128(9),
        holds_at(b, pos, encode_entries(es)),
    ensures
        requests_from(b, pos, pos + encode_entries(es).len(), acc) == Some(acc + es),
    decreases es.len(),
{
    let end = pos + encode_entries(es).len();
    if es.len() == 0 {
        assert(acc + es =~= acc);
    } else {
        let d = delimited(1, encode_entry(es[0]));
        let rest = encode_entries(es.drop_first());
        lemma_holds_split(b, pos, d, rest);
        assert(holds_at(b, pos, d));
        lemma_delimited_field(b, pos, end, 1, encode_entry(es[0]), 100);
        let s = pos + d.len() - encode_entry(es[0]).len();
        lemma_entry_read(b, s, es[0]);
        lemma_field_bounds(b, pos, end, 100);
        lemma_entries_read(b, pos + d.len(), es.drop_first(), acc.push(es[0]));
        assert(acc.push(es[0]) + es.drop_first() =~= acc + es);
    }
}

/// A job list written from a sequence of entries decodes to exactly those
/// entries, in order; so decoding it yields one job per entry that selects
/// a known source, in order, and drops the others without failing.
pub proof fn lemma_decode_encoded(es: Seq<Option<JobView>>)
    requires
        encode_entries(es).len() < 0x8000_0000_0000_0000,
    ensures
        job_entries(encode_entries(es)) == Some(es),
        recognized(es).len() == count_recognized(es),
{
    let b = encode_entries(es);
    lemma_pow128_9();
    assert(b.subrange(0, b.len() as int) =~= b);
    lemma_entries_read(b, 0, es, Seq::empty());
    assert(Seq::<Option<JobView>>::empty() + es =~= es);
    lemma_recognized_len(es);
}

} // verus!
