//! The bridge's wire format: compact-prefixed little-endian binary payloads.
//! Spec-level decoders are the ground truth; the executable readers and
//! writers are proved to match them exactly.
use vstd::prelude::*;
use crate::types::{
    Account, Blueprint, Field, FieldView, JobDef, Preferences, TAG_ACCOUNT, TAG_BYTES, TAG_U64,
    TAG_U8,
};

verus! {

/// Decodes a compact-prefixed unsigned integer at `pos`: the low two bits
/// of the first byte select a 1, 2, 4 or 5 byte little-endian form, and
/// every value has exactly one accepted encoding.
pub open spec fn spec_decode_compact(data: Seq<u8>, pos: int) -> Option<(u32, int)> {
    if pos < 0 || pos >= data.len() {
        None
    } else {
        let b0 = data[pos] as int;
        let mode = b0 % 4;
        if mode == 0 {
            Some(((b0 / 4) as u32, pos + 1))
        } else if mode == 1 {
            if pos + 2 <= data.len() {
                let v = b0 / 4 + (data[pos + 1] as int) * 64;
                if v >= 64 {
                    Some((v as u32, pos + 2))
                } else {
                    None
                }
            } else {
                None
            }
        } else if mode == 2 {
            if pos + 4 <= data.len() {
                let v = b0 / 4 + (data[pos + 1] as int) * 64 + (data[pos + 2] as int) * 16384 + (
                data[pos + 3] as int) * 4194304;
                if v >= 16384 {
                    Some((v as u32, pos + 4))
                } else {
                    None
                }
            } else {
                None
            }
        } else {
            if b0 / 4 == 0 && pos + 5 <= data.len() {
                let v = (data[pos + 1] as int) + (data[pos + 2] as int) * 256 + (data[pos
                    + 3] as int) * 65536 + (data[pos + 4] as int) * 16777216;
                if v >= 1073741824 {
                    Some((v as u32, pos + 5))
                } else {
                    None
                }
            } else {
                None
            }
        }
    }
}

/// Decodes a fixed-width 64-bit little-endian integer.
pub open spec fn spec_decode_u64(data: Seq<u8>, pos: int) -> Option<(u64, int)> {
    if pos < 0 || pos + 8 > data.len() {
        None
    } else {
        let v = (data[pos] as int) + (data[pos + 1] as int) * 0x100 + (data[pos + 2] as int)
            * 0x10000 + (data[pos + 3] as int) * 0x1000000 + (data[pos + 4] as int) * 0x100000000
            + (data[pos + 5] as int) * 0x10000000000 + (data[pos + 6] as int) * 0x1000000000000 + (
        data[pos + 7] as int) * 0x100000000000000;
        Some((v as u64, pos + 8))
    }
}

/// Decodes a 32-byte account identity.
pub open spec fn spec_decode_account(data: Seq<u8>, pos: int) -> Option<(Seq<u8>, int)> {
    if pos < 0 || pos + 32 > data.len() {
        None
    } else {
        Some((data.subrange(pos, pos + 32), pos + 32))
    }
}

/// Decodes a compact-length-prefixed byte string.
pub open spec fn spec_decode_bytes(data: Seq<u8>, pos: int) -> Option<(Seq<u8>, int)> {
    match spec_decode_compact(data, pos) {
        None => None,
        Some((len, p2)) => if p2 + len <= data.len() {
            Some((data.subrange(p2, p2 + len), p2 + len))
        } else {
            None
        },
    }
}

/// Decodes one tagged field: a tag byte followed by its payload.
pub open spec fn spec_decode_field(data: Seq<u8>, pos: int) -> Option<(FieldView, int)> {
    if pos < 0 || pos >= data.len() {
        None
    } else {
        let tag = data[pos];
        if tag == TAG_U8 {
            if pos + 2 <= data.len() {
                Some((FieldView::U8(data[pos + 1]), pos + 2))
            } else {
                None
            }
        } else if tag == TAG_U64 {
            match spec_decode_u64(data, pos + 1) {
                None => None,
                Some((v, p2)) => Some((FieldView::U64(v), p2)),
            }
        } else if tag == TAG_BYTES {
            match spec_decode_bytes(data, pos + 1) {
                None => None,
                Some((b, p2)) => Some((FieldView::Bytes(b), p2)),
            }
        } else if tag == TAG_ACCOUNT {
            match spec_decode_account(data, pos + 1) {
                None => None,
                Some((a, p2)) => Some((FieldView::AccountId(a), p2)),
            }
        } else {
            None
        }
    }
}

/// Decodes exactly `n` consecutive fields.
pub open spec fn spec_decode_fields_n(data: Seq<u8>, pos: int, n: nat) -> Option<(
    Seq<FieldView>,
    int,
)>
    decreases n,
{
    if n == 0 {
        Some((Seq::empty(), pos))
    } else {
        match spec_decode_field(data, pos) {
            None => None,
            Some((f, p2)) => match spec_decode_fields_n(data, p2, (n - 1) as nat) {
                None => None,
                Some((fs, p3)) => Some((seq![f] + fs, p3)),
            },
        }
    }
}

/// Decodes a compact-count-prefixed field list.
pub open spec fn spec_decode_fields(data: Seq<u8>, pos: int) -> Option<(Seq<FieldView>, int)> {
    match spec_decode_compact(data, pos) {
        None => None,
        Some((n, p2)) => spec_decode_fields_n(data, p2, n as nat),
    }
}

/// Decodes exactly `n` consecutive 32-byte accounts.
pub open spec fn spec_decode_accounts_n(data: Seq<u8>, pos: int, n: nat) -> Option<(
    Seq<Seq<u8>>,
    int,
)>
    decreases n,
{
    if n == 0 {
        Some((Seq::empty(), pos))
    } else {
        match spec_decode_account(data, pos) {
            None => None,
            Some((a, p2)) => match spec_decode_accounts_n(data, p2, (n - 1) as nat) {
                None => None,
                Some((more, p3)) => Some((seq![a] + more, p3)),
            },
        }
    }
}

/// Decodes a compact-count-prefixed account list.
pub open spec fn spec_decode_accounts(data: Seq<u8>, pos: int) -> Option<(Seq<Seq<u8>>, int)> {
    match spec_decode_compact(data, pos) {
        None => None,
        Some((n, p2)) => spec_decode_accounts_n(data, p2, n as nat),
    }
}

/// The mathematical value of a job definition: name and schema bytes.
pub open spec fn spec_decode_jobdef(data: Seq<u8>, pos: int) -> Option<((Seq<u8>, Seq<u8>), int)> {
    match spec_decode_bytes(data, pos) {
        None => None,
        Some((name, p2)) => match spec_decode_bytes(data, p2) {
            None => None,
            Some((params, p3)) => Some(((name, params), p3)),
        },
    }
}

/// Decodes exactly `n` consecutive job definitions.
pub open spec fn spec_decode_jobs_n(data: Seq<u8>, pos: int, n: nat) -> Option<(
    Seq<(Seq<u8>, Seq<u8>)>,
    int,
)>
    decreases n,
{
    if n == 0 {
        Some((Seq::empty(), pos))
    } else {
        match spec_decode_jobdef(data, pos) {
            None => None,
            Some((j, p2)) => match spec_decode_jobs_n(data, p2, (n - 1) as nat) {
                None => None,
                Some((more, p3)) => Some((seq![j] + more, p3)),
            },
        }
    }
}

/// Decodes a whole blueprint payload: metadata, the two argument schemas,
/// and the compact-count-prefixed job table.
pub open spec fn spec_decode_blueprint(data: Seq<u8>, pos: int) -> Option<(
    (Seq<u8>, Seq<u8>, Seq<u8>, Seq<(Seq<u8>, Seq<u8>)>),
    int,
)> {
    match spec_decode_bytes(data, pos) {
        None => None,
        Some((metadata, p2)) => match spec_decode_bytes(data, p2) {
            None => None,
            Some((reg_params, p3)) => match spec_decode_bytes(data, p3) {
                None => None,
                Some((req_params, p4)) => match spec_decode_compact(data, p4) {
                    None => None,
                    Some((n, p5)) => match spec_decode_jobs_n(data, p5, n as nat) {
                        None => None,
                        Some((jobs, p6)) => Some(((metadata, reg_params, req_params, jobs), p6)),
                    },
                },
            },
        },
    }
}

/// The views of a decoded field list.
pub open spec fn fields_view(s: Seq<Field>) -> Seq<FieldView> {
    s.map_values(|f: Field| f@)
}

/// The views of a decoded account list.
pub open spec fn accounts_view(s: Seq<Account>) -> Seq<Seq<u8>> {
    s.map_values(|a: Account| a@)
}

/// The views of a decoded job table.
pub open spec fn jobs_view(s: Seq<JobDef>) -> Seq<(Seq<u8>, Seq<u8>)> {
    s.map_values(|j: JobDef| (j.name@, j.params@))
}

/// Reads a compact-prefixed unsigned integer.
pub fn read_compact(data: &Vec<u8>, pos: usize) -> (r: Option<(u32, usize)>)
    ensures
        match r {
            Some((v, p)) => spec_decode_compact(data@, pos as int) == Some((v, p as int)) && pos
                < p <= data@.len(),
            None => spec_decode_compact(data@, pos as int) is None,
        },
{
    if pos >= data.len() {
        return None;
    }
    let b0 = data[pos];
    let mode = b0 % 4;
    if mode == 0 {
        Some(((b0 / 4) as u32, pos + 1))
    } else if mode == 1 {
        if data.len() - pos >= 2 {
            let v: u32 = (b0 / 4) as u32 + (data[pos + 1] as u32) * 64;
            if v >= 64 {
                Some((v, pos + 2))
            } else {
                None
            }
        } else {
            None
        }
    } else if mode == 2 {
        if data.len() - pos >= 4 {
            let v: u32 = (b0 / 4) as u32 + (data[pos + 1] as u32) * 64 + (data[pos + 2] as u32)
                * 16384 + (data[pos + 3] as u32) * 4194304;
            if v >= 16384 {
                Some((v, pos + 4))
            } else {
                None
            }
        } else {
            None
        }
    } else {
        if b0 / 4 == 0 && data.len() - pos >= 5 {
            let v: u32 = (data[pos + 1] as u32) + (data[pos + 2] as u32) * 256 + (data[pos
                + 3] as u32) * 65536 + (data[pos + 4] as u32) * 16777216;
            if v >= 1073741824 {
                Some((v, pos + 5))
            } else {
                None
            }
        } else {
            None
        }
    }
}

/// Reads a fixed-width 64-bit little-endian integer.
pub fn read_u64(data: &Vec<u8>, pos: usize) -> (r: Option<(u64, usize)>)
    ensures
        match r {
            Some((v, p)) => spec_decode_u64(data@, pos as int) == Some((v, p as int)) && pos < p
                <= data@.len(),
            None => spec_decode_u64(data@, pos as int) is None,
        },
{
    if data.len() < 8 || pos > data.len() - 8 {
        return None;
    }
    let v: u64 = (data[pos] as u64) + (data[pos + 1] as u64) * 0x100 + (data[pos + 2] as u64)
        * 0x10000 + (data[pos + 3] as u64) * 0x1000000 + (data[pos + 4] as u64) * 0x100000000 + (
    data[pos + 5] as u64) * 0x10000000000 + (data[pos + 6] as u64) * 0x1000000000000 + (data[pos
        + 7] as u64) * 0x100000000000000;
    Some((v, pos + 8))
}

/// Reads a 32-byte account identity.
pub fn read_account(data: &Vec<u8>, pos: usize) -> (r: Option<(Account, usize)>)
    ensures
        match r {
            Some((a, p)) => spec_decode_account(data@, pos as int) == Some((a@, p as int)) && pos
                < p <= data@.len() && a.wf(),
            None => spec_decode_account(data@, pos as int) is None,
        },
{
    if data.len() < 32 || pos > data.len() - 32 {
        return None;
    }
    let mut bytes: Vec<u8> = Vec::new();
    let mut i: usize = 0;
    while i < 32
        invariant
            i <= 32,
            pos + 32 <= data.len(),
            bytes@ =~= data@.subrange(pos as int, pos + i),
        decreases 32 - i,
    {
        bytes.push(data[pos + i]);
        i += 1;
    }
    proof {
        assert(bytes@ =~= data@.subrange(pos as int, pos + 32));
    }
    Some((Account { bytes }, pos + 32))
}

/// Reads a compact-length-prefixed byte string.
pub fn read_bytes(data: &Vec<u8>, pos: usize) -> (r: Option<(Vec<u8>, usize)>)
    ensures
        match r {
            Some((b, p)) => spec_decode_bytes(data@, pos as int) == Some((b@, p as int)) && pos
                < p <= data@.len(),
            None => spec_decode_bytes(data@, pos as int) is None,
        },
{
    let (len, start) = match read_compact(data, pos) {
        Some(x) => x,
        None => {
            return None;
        },
    };
    let len = len as usize;
    if data.len() - start < len {
        return None;
    }
    let mut bytes: Vec<u8> = Vec::new();
    let mut i: usize = 0;
    while i < len
        invariant
            i <= len,
            start + len <= data.len(),
            bytes@ =~= data@.subrange(start as int, start + i),
        decreases len - i,
    {
        bytes.push(data[start + i]);
        i += 1;
    }
    proof {
        assert(bytes@ =~= data@.subrange(start as int, start as int + len as int));
    }
    Some((bytes, start + len))
}

/// Reads one tagged field.
pub fn read_field(data: &Vec<u8>, pos: usize) -> (r: Option<(Field, usize)>)
    ensures
        match r {
            Some((f, p)) => spec_decode_field(data@, pos as int) == Some((f@, p as int)) && pos
                < p <= data@.len(),
            None => spec_decode_field(data@, pos as int) is None,
        },
{
    if pos >= data.len() {
        return None;
    }
    let tag = data[pos];
    if tag == TAG_U8 {
        if data.len() - pos >= 2 {
            Some((Field::U8(data[pos + 1]), pos + 2))
        } else {
            None
        }
    } else if tag == TAG_U64 {
        match read_u64(data, pos + 1) {
            Some((v, p2)) => Some((Field::U64(v), p2)),
            None => None,
        }
    } else if tag == TAG_BYTES {
        match read_bytes(data, pos + 1) {
            Some((b, p2)) => Some((Field::Bytes(b), p2)),
            None => None,
        }
    } else if tag == TAG_ACCOUNT {
        match read_account(data, pos + 1) {
            Some((a, p2)) => Some((Field::AccountId(a), p2)),
            None => None,
        }
    } else {
        None
    }
}

/// Reads a compact-count-prefixed field list.
pub fn read_fields(data: &Vec<u8>, pos: usize) -> (r: Option<(Vec<Field>, usize)>)
    ensures
        match r {
            Some((fs, p)) => spec_decode_fields(data@, pos as int) == Some((
                fields_view(fs@),
                p as int,
            )) && pos < p <= data@.len(),
            None => spec_decode_fields(data@, pos as int) is None,
        },
{
    let (count, start) = match read_compact(data, pos) {
        Some(x) => x,
        None => {
            return None;
        },
    };
    let mut acc: Vec<Field> = Vec::new();
    let mut cur: usize = start;
    let mut i: u32 = 0;
    while i < count
        invariant
            i <= count,
            cur <= data@.len(),
            pos < start <= cur,
            spec_decode_compact(data@, pos as int) == Some((count, start as int)),
            spec_decode_fields_n(data@, start as int, count as nat) == (match spec_decode_fields_n(
                data@,
                cur as int,
                (count - i) as nat,
            ) {
                Option::None => Option::<(Seq<FieldView>, int)>::None,
                Option::Some((vs, end)) => Option::Some((fields_view(acc@) + vs, end)),
            }),
        decreases count - i,
    {
        let (f, p2) = match read_field(data, cur) {
            Some(x) => x,
            None => {
                proof {
                    assert(spec_decode_fields_n(data@, cur as int, (count - i) as nat) is None);
                }
                return None;
            },
        };
        acc.push(f);
        proof {
            assert(fields_view(acc@) =~= fields_view(acc@.drop_last()) + seq![acc@.last()@]);
            assert forall|vs: Seq<FieldView>|
                true implies fields_view(acc@.drop_last()) + (seq![acc@.last()@] + vs)
                =~= fields_view(acc@) + vs by {}
        }
        cur = p2;
        i += 1;
    }
    proof {
        assert(spec_decode_fields_n(data@, cur as int, 0) == Some((
            Seq::<FieldView>::empty(),
            cur as int,
        )));
        assert(fields_view(acc@) + Seq::<FieldView>::empty() =~= fields_view(acc@));
    }
    Some((acc, cur))
}

/// Reads a compact-count-prefixed account list.
pub fn read_accounts(data: &Vec<u8>, pos: usize) -> (r: Option<(Vec<Account>, usize)>)
    ensures
        match r {
            Some((accts, p)) => spec_decode_accounts(data@, pos as int) == Some((
                accounts_view(accts@),
                p as int,
            )) && pos < p <= data@.len(),
            None => spec_decode_accounts(data@, pos as int) is None,
        },
{
    let (count, start) = match read_compact(data, pos) {
        Some(x) => x,
        None => {
            return None;
        },
    };
    let mut acc: Vec<Account> = Vec::new();
    let mut cur: usize = start;
    let mut i: u32 = 0;
    while i < count
        invariant
            i <= count,
            cur <= data@.len(),
            pos < start <= cur,
            spec_decode_compact(data@, pos as int) == Some((count, start as int)),
            spec_decode_accounts_n(data@, start as int, count as nat) == (
            match spec_decode_accounts_n(data@, cur as int, (count - i) as nat) {
                Option::None => Option::<(Seq<Seq<u8>>, int)>::None,
                Option::Some((vs, end)) => Option::Some((accounts_view(acc@) + vs, end)),
            }),
        decreases count - i,
    {
        let (a, p2) = match read_account(data, cur) {
            Some(x) => x,
            None => {
                proof {
                    assert(spec_decode_accounts_n(data@, cur as int, (count - i) as nat) is None);
                }
                return None;
            },
        };
        acc.push(a);
        proof {
            assert(accounts_view(acc@) =~= accounts_view(acc@.drop_last()) + seq![acc@.last()@]);
            assert forall|vs: Seq<Seq<u8>>|
                true implies accounts_view(acc@.drop_last()) + (seq![acc@.last()@] + vs)
                =~= accounts_view(acc@) + vs by {}
        }
        cur = p2;
        i += 1;
    }
    proof {
        assert(accounts_view(acc@) + Seq::<Seq<u8>>::empty() =~= accounts_view(acc@));
    }
    Some((acc, cur))
}

/// Reads a whole blueprint payload.
pub fn read_blueprint(data: &Vec<u8>, pos: usize) -> (r: Option<(Blueprint, usize)>)
    ensures
        match r {
            Some((b, p)) => spec_decode_blueprint(data@, pos as int) == Some((
                (b.metadata@, b.registration_params@, b.request_params@, jobs_view(b.jobs@)),
                p as int,
            )) && pos <= p <= data@.len(),
            None => spec_decode_blueprint(data@, pos as int) is None,
        },
{
    let (metadata, p2) = match read_bytes(data, pos) {
        Some(x) => x,
        None => {
            return None;
        },
    };
    let (registration_params, p3) = match read_bytes(data, p2) {
        Some(x) => x,
        None => {
            return None;
        },
    };
    let (request_params, p4) = match read_bytes(data, p3) {
        Some(x) => x,
        None => {
            return None;
        },
    };
    let (count, start) = match read_compact(data, p4) {
        Some(x) => x,
        None => {
            return None;
        },
    };
    let mut jobs: Vec<JobDef> = Vec::new();
    let mut cur: usize = start;
    let mut i: u32 = 0;
    while i < count
        invariant
            i <= count,
            cur <= data@.len(),
            start <= cur,
            spec_decode_bytes(data@, pos as int) == Some((metadata@, p2 as int)),
            spec_decode_bytes(data@, p2 as int) == Some((registration_params@, p3 as int)),
            spec_decode_bytes(data@, p3 as int) == Some((request_params@, p4 as int)),
            spec_decode_compact(data@, p4 as int) == Some((count, start as int)),
            pos < p2 <= p3,
            p3 <= p4 < start,
            spec_decode_jobs_n(data@, start as int, count as nat) == (match spec_decode_jobs_n(
                data@,
                cur as int,
                (count - i) as nat,
            ) {
                Option::None => Option::<(Seq<(Seq<u8>, Seq<u8>)>, int)>::None,
                Option::Some((vs, end)) => Option::Some((jobs_view(jobs@) + vs, end)),
            }),
        decreases count - i,
    {
        let (name, q2) = match read_bytes(data, cur) {
            Some(x) => x,
            None => {
                proof {
                    assert(spec_decode_jobdef(data@, cur as int) is None);
                    assert(spec_decode_jobs_n(data@, cur as int, (count - i) as nat) is None);
                }
                return None;
            },
        };
        let (params, q3) = match read_bytes(data, q2) {
            Some(x) => x,
            None => {
                proof {
                    assert(spec_decode_jobdef(data@, cur as int) is None);
                    assert(spec_decode_jobs_n(data@, cur as int, (count - i) as nat) is None);
                }
                return None;
            },
        };
        jobs.push(JobDef { name, params });
        proof {
            assert(jobs_view(jobs@) =~= jobs_view(jobs@.drop_last()) + seq![
                (jobs@.last().name@, jobs@.last().params@),
            ]);
            assert forall|vs: Seq<(Seq<u8>, Seq<u8>)>|
                true implies jobs_view(jobs@.drop_last()) + (seq![
                (jobs@.last().name@, jobs@.last().params@),
            ] + vs) =~= jobs_view(jobs@) + vs by {}
        }
        cur = q3;
        i += 1;
    }
    proof {
        assert(jobs_view(jobs@) + Seq::<(Seq<u8>, Seq<u8>)>::empty() =~= jobs_view(jobs@));
    }
    Some((Blueprint { metadata, registration_params, request_params, jobs }, cur))
}

/// Reads an operator preferences payload: one bounded key blob.
pub fn read_preferences(data: &Vec<u8>, pos: usize) -> (r: Option<(Preferences, usize)>)
    ensures
        match r {
            Some((pref, p)) => spec_decode_bytes(data@, pos as int) == Some((pref@, p as int))
                && pos < p <= data@.len(),
            None => spec_decode_bytes(data@, pos as int) is None,
        },
{
    match read_bytes(data, pos) {
        Some((key, p)) => Some((Preferences { key }, p)),
        None => None,
    }
}

/// The unique accepted encoding of a compact-prefixed unsigned integer.
pub open spec fn spec_encode_compact(v: u32) -> Seq<u8> {
    if v < 64 {
        seq![(v * 4) as u8]
    } else if v < 16384 {
        seq![((v * 4 + 1) % 256) as u8, ((v * 4 + 1) / 256) as u8]
    } else if v < 1073741824 {
        seq![
            ((v * 4 + 2) % 256) as u8,
            (((v * 4 + 2) / 256) % 256) as u8,
            (((v * 4 + 2) / 65536) % 256) as u8,
            ((v * 4 + 2) / 16777216) as u8,
        ]
    } else {
        seq![
            3u8,
            (v % 256) as u8,
            ((v / 256) % 256) as u8,
            ((v / 65536) % 256) as u8,
            (v / 16777216) as u8,
        ]
    }
}

/// Writes the compact prefix form of `v`.
pub fn encode_compact(v: u32) -> (r: Vec<u8>)
    ensures
        r@ == spec_encode_compact(v),
{
    let mut out: Vec<u8> = Vec::new();
    if v < 64 {
        out.push((v * 4) as u8);
    } else if v < 16384 {
        let x: u32 = v * 4 + 1;
        out.push((x % 256) as u8);
        out.push((x / 256) as u8);
    } else if v < 1073741824 {
        let x: u32 = v * 4 + 2;
        out.push((x % 256) as u8);
        out.push(((x / 256) % 256) as u8);
        out.push(((x / 65536) % 256) as u8);
        out.push((x / 16777216) as u8);
    } else {
        out.push(3u8);
        out.push((v % 256) as u8);
        out.push(((v / 256) % 256) as u8);
        out.push(((v / 65536) % 256) as u8);
        out.push((v / 16777216) as u8);
    }
    proof {
        assert(out@ =~= spec_encode_compact(v));
    }
    out
}

/// The little-endian encoding of a 64-bit integer.
pub open spec fn spec_encode_u64(v: u64) -> Seq<u8> {
    seq![
        (v % 0x100) as u8,
        ((v / 0x100) % 0x100) as u8,
        ((v / 0x10000) % 0x100) as u8,
        ((v / 0x1000000) % 0x100) as u8,
        ((v / 0x100000000) % 0x100) as u8,
        ((v / 0x10000000000) % 0x100) as u8,
        ((v / 0x1000000000000) % 0x100) as u8,
        (v / 0x100000000000000) as u8,
    ]
}

/// Writes the little-endian form of `v`.
pub fn encode_u64(v: u64) -> (r: Vec<u8>)
    ensures
        r@ == spec_encode_u64(v),
{
    let mut out: Vec<u8> = Vec::new();
    out.push((v % 0x100) as u8);
    out.push(((v / 0x100) % 0x100) as u8);
    out.push(((v / 0x10000) % 0x100) as u8);
    out.push(((v / 0x1000000) % 0x100) as u8);
    out.push(((v / 0x100000000) % 0x100) as u8);
    out.push(((v / 0x10000000000) % 0x100) as u8);
    out.push(((v / 0x1000000000000) % 0x100) as u8);
    out.push((v / 0x100000000000000) as u8);
    proof {
        assert(out@ =~= spec_encode_u64(v));
    }
    out
}

/// The compact-length-prefixed encoding of a byte string.
pub open spec fn spec_encode_bytes(b: Seq<u8>) -> Seq<u8> {
    spec_encode_compact(b.len() as u32) + b
}

/// Writes the compact-length-prefixed form of `data`.
pub fn encode_bytes(data: &Vec<u8>) -> (r: Vec<u8>)
    requires
        data@.len() <= u32::MAX,
    ensures
        r@ == spec_encode_bytes(data@),
{
    let mut out = encode_compact(data.len() as u32);
    let ghost prefix = out@;
    let n = data.len();
    let mut i: usize = 0;
    while i < n
        invariant
            i <= n,
            n == data@.len(),
            out@ =~= prefix + data@.subrange(0, i as int),
        decreases n - i,
    {
        out.push(data[i]);
        proof {
            assert(out@ =~= prefix + data@.subrange(0, i + 1));
        }
        i += 1;
    }
    proof {
        assert(out@ =~= spec_encode_bytes(data@));
    }
    out
}

/// The encoding of one tagged field.
pub open spec fn spec_encode_field(f: FieldView) -> Seq<u8> {
    match f {
        FieldView::U8(x) => seq![TAG_U8, x],
        FieldView::U64(x) => seq![TAG_U64] + spec_encode_u64(x),
        FieldView::Bytes(b) => seq![TAG_BYTES] + spec_encode_bytes(b),
        FieldView::AccountId(a) => seq![TAG_ACCOUNT] + a,
    }
}

/// Writes one tagged field.
pub fn encode_field(f: &Field) -> (r: Vec<u8>)
    requires
        f matches Field::Bytes(b) ==> b@.len() <= u32::MAX,
    ensures
        r@ == spec_encode_field(f@),
{
    let mut out: Vec<u8> = Vec::new();
    match f {
        Field::U8(x) => {
            out.push(TAG_U8);
            out.push(*x);
        },
        Field::U64(x) => {
            out.push(TAG_U64);
            let mut body = encode_u64(*x);
            out.append(&mut body);
        },
        Field::Bytes(b) => {
            out.push(TAG_BYTES);
            let mut body = encode_bytes(b);
            out.append(&mut body);
        },
        Field::AccountId(a) => {
            out.push(TAG_ACCOUNT);
            let mut body = crate::types::clone_bytes(&a.bytes);
            out.append(&mut body);
        },
    }
    proof {
        assert(out@ =~= spec_encode_field(f@));
    }
    out
}

/// Encoding then decoding a compact integer gives the value back, with
/// exactly the prefix consumed, whatever follows it.
pub proof fn lemma_compact_round_trip(v: u32, rest: Seq<u8>)
    ensures
        spec_decode_compact(spec_encode_compact(v) + rest, 0) == Some((
            v,
            spec_encode_compact(v).len() as int,
        )),
{
    let enc = spec_encode_compact(v);
    let data = enc + rest;
    if v < 64 {
        assert(data[0] == (v * 4) as u8);
        assert((v * 4) as u8 as int % 4 == 0 && (v * 4) as u8 as int / 4 == v) by (nonlinear_arith)
            requires
                v < 64,
        ;
    } else if v < 16384 {
        let x = v * 4 + 1;
        assert(data[0] == (x % 256) as u8);
        assert(data[1] == (x / 256) as u8);
        assert(x % 256 == 4 * (v % 64) + 1 && x / 256 == v / 64) by (nonlinear_arith)
            requires
                x == v * 4 + 1,
                64 <= v < 16384,
        ;
        assert((4 * (v % 64) + 1) % 4 == 1 && (4 * (v % 64) + 1) / 4 == v % 64) by (
        nonlinear_arith)
            requires
                0 <= v % 64 < 64,
        ;
        assert(v % 64 + (v / 64) * 64 == v) by (nonlinear_arith)
            requires
                v >= 0,
        ;
    } else if v < 1073741824 {
        let x = v * 4 + 2;
        assert(data[0] == (x % 256) as u8);
        assert(data[1] == ((x / 256) % 256) as u8);
        assert(data[2] == ((x / 65536) % 256) as u8);
        assert(data[3] == (x / 16777216) as u8);
        assert(x % 256 == 4 * (v % 64) + 2) by (nonlinear_arith)
            requires
                x == v * 4 + 2,
                v >= 0,
        ;
        assert((4 * (v % 64) + 2) % 4 == 2 && (4 * (v % 64) + 2) / 4 == v % 64) by (
        nonlinear_arith)
            requires
                0 <= v % 64 < 64,
        ;
        assert(x / 256 == (v / 64) % 16777216 && x / 65536 == (v / 16384) % 65536 && x / 16777216
            == v / 4194304) by (nonlinear_arith)
            requires
                x == v * 4 + 2,
                0 <= v < 1073741824,
        ;
        assert((v / 64) % 16777216 % 256 == (v / 64) % 256 && (v / 16384) % 65536 % 256 == (v
            / 16384) % 256) by (nonlinear_arith)
            requires
                v >= 0,
        ;
        assert(v % 64 + ((v / 64) % 256) * 64 + ((v / 16384) % 256) * 16384 + (v / 4194304)
            * 4194304 == v) by (nonlinear_arith)
            requires
                0 <= v < 1073741824,
        ;
    } else {
        assert(data[0] == 3u8);
        assert(data[1] == (v % 256) as u8);
        assert(data[2] == ((v / 256) % 256) as u8);
        assert(data[3] == ((v / 65536) % 256) as u8);
        assert(data[4] == (v / 16777216) as u8);
        assert(v % 256 + ((v / 256) % 256) * 256 + ((v / 65536) % 256) * 65536 + (v / 16777216)
            * 16777216 == v) by (nonlinear_arith)
            requires
                v >= 0,
        ;
    }
}

/// Encoding then decoding a little-endian 64-bit integer gives it back.
pub proof fn lemma_u64_round_trip(v: u64, rest: Seq<u8>)
    ensures
        spec_decode_u64(spec_encode_u64(v) + rest, 0) == Some((v, 8int)),
{
    let data = spec_encode_u64(v) + rest;
    assert(data[0] == (v % 0x100) as u8);
    assert(data[1] == ((v / 0x100) % 0x100) as u8);
    assert(data[2] == ((v / 0x10000) % 0x100) as u8);
    assert(data[3] == ((v / 0x1000000) % 0x100) as u8);
    assert(data[4] == ((v / 0x100000000) % 0x100) as u8);
    assert(data[5] == ((v / 0x10000000000) % 0x100) as u8);
    assert(data[6] == ((v / 0x1000000000000) % 0x100) as u8);
    assert(data[7] == (v / 0x100000000000000) as u8);
    assert(v % 0x100 + ((v / 0x100) % 0x100) * 0x100 + ((v / 0x10000) % 0x100) * 0x10000 + ((v
        / 0x1000000) % 0x100) * 0x1000000 + ((v / 0x100000000) % 0x100) * 0x100000000 + ((v
        / 0x10000000000) % 0x100) * 0x10000000000 + ((v / 0x1000000000000) % 0x100)
        * 0x1000000000000 + (v / 0x100000000000000) * 0x100000000000000 == v) by (bit_vector);
}

/// Encoding then decoding a length-prefixed byte string gives it back,
/// with exactly the prefix and payload consumed.
pub proof fn lemma_bytes_round_trip(b: Seq<u8>, rest: Seq<u8>)
    requires
        b.len() <= u32::MAX,
    ensures
        spec_decode_bytes(spec_encode_bytes(b) + rest, 0) == Some((
            b,
            spec_encode_bytes(b).len() as int,
        )),
{
    let prefix = spec_encode_compact(b.len() as u32);
    let data = spec_encode_bytes(b) + rest;
    assert(data =~= prefix + (b + rest));
    lemma_compact_round_trip(b.len() as u32, b + rest);
    assert(spec_decode_compact(data, 0) == Some((b.len() as u32, prefix.len() as int)));
    assert(data.subrange(prefix.len() as int, (prefix.len() + b.len()) as int) =~= b);
}

/// Encoding then decoding a tagged field gives its value back, with
/// exactly the field's bytes consumed.
pub proof fn lemma_field_round_trip(f: FieldView, rest: Seq<u8>)
    requires
        f matches FieldView::Bytes(b) ==> b.len() <= u32::MAX,
        f matches FieldView::AccountId(a) ==> a.len() == 32,
    ensures
        spec_decode_field(spec_encode_field(f) + rest, 0) == Some((
            f,
            spec_encode_field(f).len() as int,
        )),
{
    let data = spec_encode_field(f) + rest;
    match f {
        FieldView::U8(x) => {
            assert(data[0] == TAG_U8);
            assert(data[1] == x);
        },
        FieldView::U64(x) => {
            assert(data[0] == TAG_U64);
            assert(data.subrange(1, data.len() as int) =~= spec_encode_u64(x) + rest);
            lemma_u64_round_trip(x, rest);
            lemma_decode_u64_shift(spec_encode_u64(x) + rest, data, 1);
        },
        FieldView::Bytes(b) => {
            assert(data[0] == TAG_BYTES);
            assert(data.subrange(1, data.len() as int) =~= spec_encode_bytes(b) + rest);
            lemma_bytes_round_trip(b, rest);
            lemma_decode_bytes_shift(spec_encode_bytes(b) + rest, data, 1);
        },
        FieldView::AccountId(a) => {
            assert(data[0] == TAG_ACCOUNT);
            assert(data.subrange(1, 33) =~= a);
        },
    }
}

/// Decoding a fixed-width integer sees only the eight bytes at the cursor:
/// the same bytes at a shifted position decode alike.
proof fn lemma_decode_u64_shift(tail: Seq<u8>, data: Seq<u8>, at: int)
    requires
        0 <= at,
        data.len() == at + tail.len(),
        data.subrange(at, data.len() as int) == tail,
    ensures
        spec_decode_u64(data, at) == (match spec_decode_u64(tail, 0) {
            Option::None => Option::<(u64, int)>::None,
            Option::Some((v, p)) => Option::Some((v, p + at)),
        }),
{
    if tail.len() >= 8 {
        assert forall|k: int| 0 <= k < 8 implies data[at + k] == tail[k] by {
            assert(data.subrange(at, data.len() as int)[k] == data[at + k]);
        }
    }
}

/// Decoding a compact prefix sees only the bytes at the cursor: the same
/// bytes at a shifted position decode alike.
proof fn lemma_decode_compact_shift(tail: Seq<u8>, data: Seq<u8>, at: int)
    requires
        0 <= at,
        data.len() == at + tail.len(),
        data.subrange(at, data.len() as int) == tail,
    ensures
        spec_decode_compact(data, at) == (match spec_decode_compact(tail, 0) {
            Option::None => Option::<(u32, int)>::None,
            Option::Some((v, p)) => Option::Some((v, p + at)),
        }),
{
    assert forall|k: int| 0 <= k < tail.len() implies data[at + k] == tail[k] by {
        assert(data.subrange(at, data.len() as int)[k] == data[at + k]);
    }
}

/// Decoding a byte string sees only the bytes at the cursor: the same
/// bytes at a shifted position decode alike.
proof fn lemma_decode_bytes_shift(tail: Seq<u8>, data: Seq<u8>, at: int)
    requires
        0 <= at,
        data.len() == at + tail.len(),
        data.subrange(at, data.len() as int) == tail,
    ensures
        spec_decode_bytes(data, at) == (match spec_decode_bytes(tail, 0) {
            Option::None => Option::<(Seq<u8>, int)>::None,
            Option::Some((b, p)) => Option::Some((b, p + at)),
        }),
{
    assert forall|k: int| 0 <= k < tail.len() implies data[at + k] == tail[k] by {
        assert(data.subrange(at, data.len() as int)[k] == data[at + k]);
    }
    lemma_decode_compact_shift(tail, data, at);
    match spec_decode_compact(tail, 0) {
        Option::None => {},
        Option::Some((len, p)) => {
            if p + len <= tail.len() {
                assert(data.subrange(at + p, at + p + len) =~= tail.subrange(p, p + len));
            }
        },
    }
}

} // verus!
