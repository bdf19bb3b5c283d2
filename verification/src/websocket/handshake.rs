//! The websocket handshake: a client must ask for the Foxglove subprotocol in one of its
//! `sec-websocket-protocol` headers, each a comma-separated list of protocol names.

use vstd::prelude::*;
use vstd::string::StrSliceExecFns;

verus! {

/// The websocket subprotocol of the Foxglove WebSocket protocol.
pub const SUBPROTOCOL: &'static str = "foxglove.sdk.v1";

/// Whether a character is white space, as `char::is_whitespace` decides it: it has the Unicode
/// `White_Space` property.
pub open spec fn white_space(c: char) -> bool {
    let u = c as u32;
    ||| 0x09 <= u <= 0x0d
    ||| u == 0x20
    ||| u == 0x85
    ||| u == 0xa0
    ||| u == 0x1680
    ||| 0x2000 <= u <= 0x200a
    ||| u == 0x2028
    ||| u == 0x2029
    ||| u == 0x202f
    ||| u == 0x205f
    ||| u == 0x3000
}

/// Returns whether the character is white space.
fn char_is_whitespace(c: char) -> (r: bool)
    ensures
        r == white_space(c),
{
    let u = c as u32;
    (0x09 <= u && u <= 0x0d) || u == 0x20 || u == 0x85 || u == 0xa0 || u == 0x1680 || (0x2000 <= u && u <= 0x200a)
        || u == 0x2028 || u == 0x2029 || u == 0x202f || u == 0x205f || u == 0x3000
}

/// The pieces of `s` between commas, in order, as `str::split(',')` gives them: one piece more
/// than there are commas.
pub open spec fn split_commas(s: Seq<char>) -> Seq<Seq<char>>
    decreases s.len(),
{
    if s.len() == 0 {
        seq![Seq::<char>::empty()]
    } else {
        let p = split_commas(s.drop_last());
        if s.last() == ',' {
            p.push(Seq::empty())
        } else {
            p.update(p.len() - 1, p.last().push(s.last()))
        }
    }
}

/// `s` without its leading white space.
pub open spec fn trim_start(s: Seq<char>) -> Seq<char>
    decreases s.len(),
{
    if s.len() > 0 && white_space(s[0]) {
        trim_start(s.drop_first())
    } else {
        s
    }
}

/// `s` without its trailing white space.
pub open spec fn trim_end(s: Seq<char>) -> Seq<char>
    decreases s.len(),
{
    if s.len() > 0 && white_space(s.last()) {
        trim_end(s.drop_last())
    } else {
        s
    }
}

/// `s` without its leading and trailing white space, as `str::trim` gives it.
pub open spec fn trim(s: Seq<char>) -> Seq<char> {
    trim_end(trim_start(s))
}

/// The header value lists the Foxglove subprotocol.
pub open spec fn offers(value: Seq<char>) -> bool {
    exists|k: int| 0 <= k < split_commas(value).len() && #[trigger] trim(split_commas(value)[k]) == SUBPROTOCOL@
}

proof fn lemma_split_nonempty(s: Seq<char>)
    ensures
        split_commas(s).len() >= 1,
    decreases s.len(),
{
    if s.len() > 0 {
        lemma_split_nonempty(s.drop_last());
    }
}

/// Skipping leading white space from position `i` on gives the same as from the start.
proof fn lemma_trim_start_from(s: Seq<char>, i: int)
    requires
        0 <= i <= s.len(),
        forall|k: int| 0 <= k < i ==> white_space(#[trigger] s[k]),
    ensures
        trim_start(s) == trim_start(s.subrange(i, s.len() as int)),
    decreases i,
{
    if i > 0 {
        assert(s.drop_first().subrange(i - 1, s.drop_first().len() as int) =~= s.subrange(i, s.len() as int));
        lemma_trim_start_from(s.drop_first(), i - 1);
    } else {
        assert(s.subrange(0, s.len() as int) =~= s);
    }
}

/// Skipping trailing white space before position `j` gives the same as from the end.
proof fn lemma_trim_end_to(s: Seq<char>, j: int)
    requires
        0 <= j <= s.len(),
        forall|k: int| j <= k < s.len() ==> white_space(#[trigger] s[k]),
    ensures
        trim_end(s) == trim_end(s.subrange(0, j)),
    decreases s.len() - j,
{
    if j < s.len() {
        assert(s.drop_last().subrange(0, j) =~= s.subrange(0, j));
        lemma_trim_end_to(s.drop_last(), j);
    } else {
        assert(s.subrange(0, j) =~= s);
    }
}

/// Returns whether the characters, without leading and trailing white space, are `target`.
fn trimmed_is(piece: &Vec<char>, target: &str) -> (r: bool)
    ensures
        r == (trim(piece@) == target@),
{
    let n = piece.len();
    let mut a: usize = 0;
    while a < n && char_is_whitespace(piece[a])
        invariant
            a <= n,
            n == piece@.len(),
            forall|k: int| 0 <= k < a ==> white_space(#[trigger] piece@[k]),
        decreases n - a,
    {
        a = a + 1;
    }
    proof {
        lemma_trim_start_from(piece@, a as int);
    }
    let ghost rest = piece@.subrange(a as int, n as int);
    assert(a == n || !white_space(rest[0]));
    assert(trim_start(rest) == rest);
    let mut b: usize = n;
    while b > a && char_is_whitespace(piece[b - 1])
        invariant
            a <= b <= n,
            n == piece@.len(),
            forall|k: int| b <= k < n ==> white_space(#[trigger] piece@[k]),
        decreases b - a,
    {
        b = b - 1;
    }
    let ghost core = piece@.subrange(a as int, b as int);
    proof {
        assert forall|k: int| b - a <= k < rest.len() implies white_space(#[trigger] rest[k]) by {
            assert(rest[k] == piece@[a + k]);
        }
        lemma_trim_end_to(rest, b - a);
        assert(rest.subrange(0, b - a) =~= core);
        if b > a {
            assert(core.last() == piece@[b - 1]);
        }
        assert(trim_end(core) == core);
        assert(trim(piece@) == core);
    }
    let m = target.unicode_len();
    if m != b - a {
        return false;
    }
    let mut i: usize = 0;
    while i < m
        invariant
            i <= m,
            m == b - a,
            m == target@.len(),
            a <= b <= n,
            n == piece@.len(),
            core == piece@.subrange(a as int, b as int),
            trim(piece@) == core,
            forall|k: int| 0 <= k < i ==> core[k] == target@[k],
        decreases m - i,
    {
        if piece[a + i] != target.get_char(i) {
            assert(core[i as int] != target@[i as int]);
            return false;
        }
        i = i + 1;
    }
    assert(core =~= target@);
    true
}

/// Returns whether the header value lists the Foxglove subprotocol among its comma-separated
/// names, white space around a name aside.
pub fn offers_subprotocol(value: &str) -> (r: bool)
    ensures
        r == offers(value@),
{
    let n = value.unicode_len();
    let mut piece: Vec<char> = Vec::new();
    let mut found = false;
    let mut i: usize = 0;
    while i < n
        invariant
            i <= n,
            n == value@.len(),
            split_commas(value@.take(i as int)).len() >= 1,
            split_commas(value@.take(i as int)).last() == piece@,
            found == exists|k: int|
                0 <= k < split_commas(value@.take(i as int)).len() - 1 && #[trigger] trim(
                    split_commas(value@.take(i as int))[k],
                ) == SUBPROTOCOL@,
        decreases n - i,
    {
        let c = value.get_char(i);
        let ghost before = split_commas(value@.take(i as int));
        assert(value@.take(i + 1).drop_last() =~= value@.take(i as int));
        assert(value@.take(i + 1).last() == c);
        if c == ',' {
            let here = trimmed_is(&piece, SUBPROTOCOL);
            proof {
                let after = split_commas(value@.take(i + 1));
                assert(after == before.push(Seq::<char>::empty()));
                if found {
                    let k = choose|k: int| 0 <= k < before.len() - 1 && #[trigger] trim(before[k]) == SUBPROTOCOL@;
                    assert(after[k] == before[k]);
                }
                if here {
                    assert(after[before.len() - 1] == before.last());
                }
                if exists|k: int| 0 <= k < after.len() - 1 && #[trigger] trim(after[k]) == SUBPROTOCOL@ {
                    let k = choose|k: int| 0 <= k < after.len() - 1 && #[trigger] trim(after[k]) == SUBPROTOCOL@;
                    assert(after[k] == before[k]);
                }
            }
            found = found || here;
            piece = Vec::new();
            proof {
                assert(piece@ =~= Seq::<char>::empty());
            }
        } else {
            let ghost old_piece = piece@;
            piece.push(c);
            proof {
                let after = split_commas(value@.take(i + 1));
                assert(after == before.update(before.len() - 1, before.last().push(c)));
                if found {
                    let k = choose|k: int| 0 <= k < before.len() - 1 && #[trigger] trim(before[k]) == SUBPROTOCOL@;
                    assert(after[k] == before[k]);
                }
                if exists|k: int| 0 <= k < after.len() - 1 && #[trigger] trim(after[k]) == SUBPROTOCOL@ {
                    let k = choose|k: int| 0 <= k < after.len() - 1 && #[trigger] trim(after[k]) == SUBPROTOCOL@;
                    assert(after[k] == before[k]);
                }
            }
        }
        i = i + 1;
    }
    let last = trimmed_is(&piece, SUBPROTOCOL);
    proof {
        assert(value@.take(n as int) =~= value@);
        let all = split_commas(value@);
        if last {
            assert(trim(all[all.len() - 1]) == SUBPROTOCOL@);
        }
        if offers(value@) {
            let k = choose|k: int| 0 <= k < all.len() && #[trigger] trim(all[k]) == SUBPROTOCOL@;
            if k < all.len() - 1 {
                assert(found);
            }
        }
    }
    found || last
}

/// Returns whether one of the header values lists the Foxglove subprotocol.
pub fn accepts_subprotocol(values: &Vec<String>) -> (r: bool)
    ensures
        r == exists|k: int| 0 <= k < values@.len() && #[trigger] offers(values@[k]@),
{
    let mut i: usize = 0;
    while i < values.len()
        invariant
            i <= values@.len(),
            forall|k: int| 0 <= k < i ==> !#[trigger] offers(values@[k]@),
        decreases values@.len() - i,
    {
        if offers_subprotocol(values[i].as_str()) {
            return true;
        }
        i = i + 1;
    }
    false
}

} // verus!
