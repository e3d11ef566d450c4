//! Barcodes in the `EMX1|<type>|<id>` format: a fixed prefix, a short type
//! code and the entity id, separated by pipes.

use vstd::prelude::*;
use crate::text::str_eq;

verus! {

/// Type code for a lot.
pub const TYPE_LOT: &'static str = "LOT";
/// Type code for a serial.
pub const TYPE_SERIAL: &'static str = "SER";
/// The fixed format prefix.
pub const PREFIX: &'static str = "EMX1";

/// The position of the first `c` in `s` at or after `from`, if any.
pub open spec fn find_from(s: Seq<char>, c: char, from: int) -> Option<int>
    decreases s.len() - from,
{
    if from < 0 || from >= s.len() {
        None
    } else if s[from] == c {
        Some(from)
    } else {
        find_from(s, c, from + 1)
    }
}

/// The barcode text of an entity.
pub open spec fn spec_encode(type_code: Seq<char>, id: Seq<char>) -> Seq<char> {
    "EMX1"@ + seq!['|'] + type_code + seq!['|'] + id
}

/// The `(type, id)` a barcode names: the text up to the first pipe must be the
/// prefix, the text between the first and second pipe is the (non-empty)
/// type, and everything after the second pipe, pipes included, is the
/// (non-empty) id.
pub open spec fn spec_parse(code: Seq<char>) -> Option<(Seq<char>, Seq<char>)> {
    match find_from(code, '|', 0) {
        None => None,
        Some(i1) => match find_from(code, '|', i1 + 1) {
            None => None,
            Some(i2) => {
                let prefix = code.subrange(0, i1);
                let t = code.subrange(i1 + 1, i2);
                let id = code.subrange(i2 + 1, code.len() as int);
                if prefix == "EMX1"@ && t.len() > 0 && id.len() > 0 {
                    Some((t, id))
                } else {
                    None
                }
            },
        },
    }
}

/// Encode an entity into a barcode string: `EMX1|<type>|<id>`.
pub fn encode(type_code: &str, id: &str) -> (r: String)
    ensures
        r@ == spec_encode(type_code@, id@),
{
    let mut s = String::from_str(PREFIX);
    s.append("|");
    s.append(type_code);
    s.append("|");
    s.append(id);
    proof {
        reveal_strlit("|");
        assert("|"@ =~= seq!['|']);
    }
    s
}

/// Find the first `c` at or after `from`.
fn find_char(s: &str, c: char, from: usize) -> (r: Option<usize>)
    requires
        from <= s@.len(),
    ensures
        match find_from(s@, c, from as int) {
            Some(i) => r == Some(i as usize),
            None => r is None,
        },
{
    let n = s.unicode_len();
    let mut i = from;
    while i < n
        invariant
            n == s@.len(),
            from <= i <= n,
            find_from(s@, c, from as int) == find_from(s@, c, i as int),
        decreases n - i,
    {
        if s.get_char(i) == c {
            return Some(i);
        }
        i = i + 1;
    }
    None
}

/// Parse a barcode into `(type_code, id)`, or `None` if malformed.
pub fn parse(code: &str) -> (r: Option<(String, String)>)
    ensures
        match spec_parse(code@) {
            Some((t, id)) => r matches Some(p) && p.0@ == t && p.1@ == id,
            None => r is None,
        },
{
    let n = code.unicode_len();
    let i1 = match find_char(code, '|', 0) {
        Some(i) => i,
        None => return None,
    };
    proof {
        lemma_find_from_bounds(code@, '|', 0);
    }
    let i2 = match find_char(code, '|', i1 + 1) {
        Some(i) => i,
        None => return None,
    };
    proof {
        lemma_find_from_bounds(code@, '|', i1 as int + 1);
    }
    let prefix = code.substring_char(0, i1);
    let t = code.substring_char(i1 + 1, i2);
    let id = code.substring_char(i2 + 1, n);
    if !str_eq(prefix, PREFIX) || t.unicode_len() == 0 || id.unicode_len() == 0 {
        return None;
    }
    Some((String::from_str(t), String::from_str(id)))
}

/// A found position lies in range, at or after the start, and holds `c`.
pub proof fn lemma_find_from_bounds(s: Seq<char>, c: char, from: int)
    requires
        0 <= from,
    ensures
        find_from(s, c, from) matches Some(i) ==> from <= i < s.len() && s[i] == c,
        find_from(s, c, from) matches Some(i) ==> forall|j: int| from <= j < i ==> s[j] != c,
        find_from(s, c, from) is None ==> forall|j: int| from <= j < s.len() ==> s[j] != c,
    decreases s.len() - from,
{
    if from >= 0 && from < s.len() && s[from] != c {
        lemma_find_from_bounds(s, c, from + 1);
    }
}

/// Searching from a point with no `c` before position `k` finds the same as
/// searching from `k`.
proof fn lemma_find_skip(s: Seq<char>, c: char, from: int, k: int)
    requires
        0 <= from <= k <= s.len(),
        forall|j: int| from <= j < k ==> s[j] != c,
    ensures
        find_from(s, c, from) == find_from(s, c, k),
    decreases k - from,
{
    if from < k {
        lemma_find_skip(s, c, from + 1, k);
    }
}

/// Decoding an encoded barcode gives back its type and id, for a non-empty
/// type without pipes and a non-empty id (which may itself hold pipes).
pub proof fn lemma_barcode_round_trip(type_code: Seq<char>, id: Seq<char>)
    requires
        type_code.len() > 0,
        !type_code.contains('|'),
        id.len() > 0,
    ensures
        spec_parse(spec_encode(type_code, id)) == Some((type_code, id)),
{
    broadcast use vstd::string::group_string_axioms;
    reveal_strlit("EMX1");
    let code = spec_encode(type_code, id);
    let p = "EMX1"@;
    assert(p.len() == 4);
    assert(forall|j: int| 0 <= j < 4 ==> p[j] != '|');
    let tl = type_code.len() as int;
    assert(code.len() == 4 + 1 + tl + 1 + id.len());
    assert(forall|j: int| 0 <= j < 4 ==> code[j] == p[j]);
    assert(code[4] == '|');
    lemma_find_skip(code, '|', 0, 4);
    assert(find_from(code, '|', 4) == Some(4int));
    assert forall|j: int| 5 <= j < 5 + tl implies code[j] != '|' by {
        assert(code[j] == type_code[j - 5]);
        if type_code[j - 5] == '|' {
            assert(type_code.contains('|'));
        }
    }
    assert(code[5 + tl] == '|');
    lemma_find_skip(code, '|', 5, 5 + tl);
    assert(find_from(code, '|', 5 + tl) == Some(5 + tl));
    assert(code.subrange(0, 4) =~= p);
    assert(code.subrange(5, 5 + tl) =~= type_code);
    assert(code.subrange(6 + tl, code.len() as int) =~= id);
}

} // verus!
