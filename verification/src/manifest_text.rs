//! Reading one field out of a crate's normalized build-manifest text: the
//! first line of the form `key = "value"` yields the value. Vendored
//! manifests are written in this normalized form by the resolver, which is
//! what the scans read. Lines are handed in as bytes, one list per line.

use vstd::prelude::*;

verus! {

/// The bytes that must open a field line: the key, then ` = "`.
pub open spec fn field_prefix(key: Seq<u8>) -> Seq<u8> {
    key + seq![32u8, 61u8, 32u8, 34u8]
}

/// The index of the first double-quote byte in `s`, if any.
pub open spec fn first_quote(s: Seq<u8>) -> Option<int>
    decreases s.len(),
{
    if s.len() == 0 {
        None
    } else if s[0] == 34 {
        Some(0int)
    } else {
        match first_quote(s.drop_first()) {
            Some(j) => Some(j + 1),
            None => None,
        }
    }
}

/// The value a single line holds for `key`: the bytes between the opening
/// `key = "` and the next quote.
pub open spec fn spec_line_field(line: Seq<u8>, key: Seq<u8>) -> Option<Seq<u8>> {
    let p = field_prefix(key);
    if line.len() >= p.len() && line.take(p.len() as int) == p {
        match first_quote(line.skip(p.len() as int)) {
            Some(j) => Some(line.skip(p.len() as int).take(j)),
            None => None,
        }
    } else {
        None
    }
}

/// The value the first field line of `lines` holds for `key`.
pub open spec fn spec_field(lines: Seq<Seq<u8>>, key: Seq<u8>) -> Option<Seq<u8>>
    decreases lines.len(),
{
    if lines.len() == 0 {
        None
    } else {
        match spec_line_field(lines[0], key) {
            Some(v) => Some(v),
            None => spec_field(lines.drop_first(), key),
        }
    }
}

/// A quote at `j`, with none before it, is the first quote.
proof fn lemma_first_quote_at(s: Seq<u8>, j: int)
    requires
        0 <= j < s.len(),
        s[j] == 34,
        forall|k: int| 0 <= k < j ==> s[k] != 34,
    ensures
        first_quote(s) == Some(j),
    decreases j,
{
    if j > 0 {
        lemma_first_quote_at(s.drop_first(), j - 1);
    }
}

/// Without any quote there is no first quote.
proof fn lemma_first_quote_none(s: Seq<u8>)
    requires
        forall|k: int| 0 <= k < s.len() ==> s[k] != 34,
    ensures
        first_quote(s) is None,
    decreases s.len(),
{
    if s.len() > 0 {
        lemma_first_quote_none(s.drop_first());
    }
}

/// The value one line holds for `key`, if it is a field line for it.
pub fn line_field(line: &Vec<u8>, key: &Vec<u8>) -> (r: Option<Vec<u8>>)
    requires
        key@.len() + 4 < usize::MAX,
    ensures
        r.deep_view() == spec_line_field(line@, key@),
{
    let p_len: usize = key.len() + 4;
    let ghost p = field_prefix(key@);
    if line.len() < p_len {
        return None;
    }
    let mut i: usize = 0;
    while i < key.len()
        invariant
            0 <= i <= key@.len(),
            p == field_prefix(key@),
            p_len == key@.len() + 4,
            line@.len() >= p_len,
            forall|k: int| 0 <= k < i ==> line@[k] == key@[k],
        decreases key.len() - i,
    {
        if line[i] != key[i] {
            proof {
                assert(line@.take(p.len() as int)[i as int] != p[i as int]);
            }
            return None;
        }
        i += 1;
    }
    if line[key.len()] != 32 {
        proof {
            assert(line@.take(p.len() as int)[key@.len() as int] != p[key@.len() as int]);
        }
        return None;
    }
    if line[key.len() + 1] != 61 {
        proof {
            assert(line@.take(p.len() as int)[key@.len() as int + 1] != p[key@.len() as int + 1]);
        }
        return None;
    }
    if line[key.len() + 2] != 32 {
        proof {
            assert(line@.take(p.len() as int)[key@.len() as int + 2] != p[key@.len() as int + 2]);
        }
        return None;
    }
    if line[key.len() + 3] != 34 {
        proof {
            assert(line@.take(p.len() as int)[key@.len() as int + 3] != p[key@.len() as int + 3]);
        }
        return None;
    }
    proof {
        assert(line@.take(p.len() as int) =~= p);
    }
    let mut j: usize = p_len;
    while j < line.len()
        invariant
            p_len <= j <= line@.len(),
            p == field_prefix(key@),
            p_len == key@.len() + 4,
            p.len() == p_len,
            line@.take(p.len() as int) == p,
            forall|k: int| p_len <= k < j ==> line@[k] != 34,
        decreases line.len() - j,
    {
        if line[j] == 34 {
            let mut v: Vec<u8> = Vec::new();
            let mut k: usize = p_len;
            while k < j
                invariant
                    p_len <= k <= j,
                    j < line@.len(),
                    v@.len() == k - p_len,
                    forall|k2: int| 0 <= k2 < v@.len() ==> v@[k2] == line@[p_len + k2],
                decreases j - k,
            {
                v.push(line[k]);
                k += 1;
            }
            proof {
                let rest = line@.skip(p_len as int);
                assert forall|k2: int| 0 <= k2 < rest.len() && k2 < j - p_len implies rest[k2]
                    != 34 by {
                    assert(rest[k2] == line@[p_len + k2]);
                }
                assert(rest[j - p_len] == 34);
                lemma_first_quote_at(rest, j - p_len);
                assert(v@ =~= rest.take(j - p_len));
            }
            return Some(v);
        }
        j += 1;
    }
    proof {
        let rest = line@.skip(p_len as int);
        assert forall|k2: int| 0 <= k2 < rest.len() implies rest[k2] != 34 by {
            assert(rest[k2] == line@[p_len + k2]);
        }
        lemma_first_quote_none(rest);
    }
    None
}

/// The value the first matching line of a manifest holds for `key`.
pub fn manifest_field(lines: &Vec<Vec<u8>>, key: &Vec<u8>) -> (r: Option<Vec<u8>>)
    requires
        key@.len() + 4 < usize::MAX,
    ensures
        r.deep_view() == spec_field(lines.deep_view(), key@),
{
    assert(lines.deep_view().skip(0) =~= lines.deep_view());
    let mut i: usize = 0;
    while i < lines.len()
        invariant
            0 <= i <= lines@.len(),
            key@.len() + 4 < usize::MAX,
            spec_field(lines.deep_view(), key@) == spec_field(
                lines.deep_view().skip(i as int),
                key@,
            ),
        decreases lines.len() - i,
    {
        proof {
            assert(lines.deep_view().skip(i as int)[0] == lines.deep_view()[i as int]);
            assert(lines.deep_view().skip(i as int).drop_first() =~= lines.deep_view().skip(i + 1));
            assert(lines.deep_view()[i as int] == lines@[i as int]@);
        }
        match line_field(&lines[i], key) {
            Some(v) => {
                return Some(v);
            },
            None => {},
        }
        i += 1;
    }
    proof {
        assert(lines.deep_view().skip(lines@.len() as int) =~= Seq::<Seq<u8>>::empty());
    }
    None
}

} // verus!
