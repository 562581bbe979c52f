use vstd::prelude::*;

verus! {

/// End-of-text marker of the vocabulary.
pub const END_OF_TEXT: u32 = 128001;

/// End-of-turn marker of the vocabulary.
pub const END_OF_TURN: u32 = 128009;

pub open spec fn is_end_marker_spec(id: u32) -> bool {
    id == END_OF_TEXT || id == END_OF_TURN
}

/// Whether a token id ends generation.
pub fn is_end_marker(id: u32) -> (r: bool)
    ensures
        r == is_end_marker_spec(id),
{
    id == END_OF_TEXT || id == END_OF_TURN
}

/// The vocabulary's spelling of a newline.
pub open spec fn newline_marker() -> Seq<char> {
    seq!['<', '0', 'x', '0', 'A', '>']
}

/// The vocabulary's leading-space marker.
pub open spec fn space_marker() -> char {
    'Ġ'
}

/// A vocabulary piece as literal text: each leading-space marker becomes a
/// space and each newline marker a newline, read left to right.
pub open spec fn rendered(p: Seq<char>) -> Seq<char>
    decreases p.len(),
{
    if p.len() == 0 {
        Seq::empty()
    } else if p[0] == space_marker() {
        seq![' '] + rendered(p.drop_first())
    } else if p.len() >= 6 && p.subrange(0, 6) == newline_marker() {
        seq!['\n'] + rendered(p.subrange(6, p.len() as int))
    } else {
        seq![p[0]] + rendered(p.drop_first())
    }
}

/// Whether the newline marker starts at position `i` of `s`.
fn newline_marker_at(s: &str, i: usize) -> (r: bool)
    requires
        i < s@.len(),
    ensures
        r == (s@.len() >= i + 6 && s@.subrange(i as int, i + 6) == newline_marker()),
{
    let n = s.unicode_len();
    if n - i < 6 {
        return false;
    }
    let r = s.get_char(i) == '<' && s.get_char(i + 1) == '0' && s.get_char(i + 2) == 'x'
        && s.get_char(i + 3) == '0' && s.get_char(i + 4) == 'A' && s.get_char(i + 5) == '>';
    proof {
        if r {
            assert(s@.subrange(i as int, i + 6) =~= newline_marker());
        } else if s@.subrange(i as int, i + 6) == newline_marker() {
            assert(s@.subrange(i as int, i + 6)[0] == s@[i as int]);
            assert(s@.subrange(i as int, i + 6)[1] == s@[i + 1]);
            assert(s@.subrange(i as int, i + 6)[2] == s@[i + 2]);
            assert(s@.subrange(i as int, i + 6)[3] == s@[i + 3]);
            assert(s@.subrange(i as int, i + 6)[4] == s@[i + 4]);
            assert(s@.subrange(i as int, i + 6)[5] == s@[i + 5]);
        }
    }
    r
}

proof fn lemma_rendered_suffix(p: Seq<char>, i: int)
    requires
        0 <= i < p.len(),
    ensures
        p.subrange(i, p.len() as int)[0] == p[i],
        p.subrange(i, p.len() as int).drop_first() == p.subrange(i + 1, p.len() as int),
        p.len() >= i + 6 ==> p.subrange(i, p.len() as int).subrange(0, 6) == p.subrange(i, i + 6),
        p.len() >= i + 6 ==> p.subrange(i, p.len() as int).subrange(6, p.len() - i)
            == p.subrange(i + 6, p.len() as int),
{
    assert(p.subrange(i, p.len() as int).drop_first() =~= p.subrange(i + 1, p.len() as int));
    if p.len() >= i + 6 {
        assert(p.subrange(i, p.len() as int).subrange(0, 6) =~= p.subrange(i, i + 6));
        assert(p.subrange(i, p.len() as int).subrange(6, p.len() - i) =~= p.subrange(
            i + 6,
            p.len() as int,
        ));
    }
}

/// Translates a vocabulary piece into literal text.
pub fn render_piece(piece: &str) -> (r: String)
    ensures
        r@ == rendered(piece@),
{
    let n = piece.unicode_len();
    let mut out = String::new();
    let mut i: usize = 0;
    proof {
        assert(piece@.subrange(0, n as int) =~= piece@);
    }
    while i < n
        invariant
            n == piece@.len(),
            i <= n,
            out@ + rendered(piece@.subrange(i as int, n as int)) == rendered(piece@),
        decreases n - i,
    {
        proof {
            lemma_rendered_suffix(piece@, i as int);
            reveal_strlit(" ");
            reveal_strlit("\n");
        }
        let ghost rest = piece@.subrange(i as int, n as int);
        let c = piece.get_char(i);
        if c == 'Ġ' {
            let ghost before = out@;
            out.append(" ");
            proof {
                assert(rendered(rest) == seq![' '] + rendered(piece@.subrange(i + 1, n as int)));
                assert(out@ + rendered(piece@.subrange(i + 1, n as int)) =~= before + rendered(
                    rest,
                ));
            }
            i = i + 1;
        } else if newline_marker_at(piece, i) {
            let ghost before = out@;
            out.append("\n");
            proof {
                assert(rendered(rest) == seq!['\n'] + rendered(
                    piece@.subrange(i + 6, n as int),
                ));
                assert(out@ + rendered(piece@.subrange(i + 6, n as int)) =~= before + rendered(
                    rest,
                ));
            }
            i = i + 6;
        } else {
            let ghost before = out@;
            out.append(piece.substring_char(i, i + 1));
            proof {
                assert(piece@.subrange(i as int, i + 1) =~= seq![c]);
                assert(rendered(rest) == seq![c] + rendered(piece@.subrange(i + 1, n as int)));
                assert(out@ + rendered(piece@.subrange(i + 1, n as int)) =~= before + rendered(
                    rest,
                ));
            }
            i = i + 1;
        }
    }
    proof {
        assert(piece@.subrange(n as int, n as int) =~= Seq::<char>::empty());
        assert(out@ + Seq::<char>::empty() =~= out@);
    }
    out
}

} // verus!
