//! The agent's gate on what an unauthenticated user sees: internal
//! reasoning and planning blocks are cut out of a response.
use vstd::prelude::*;
use crate::text::{chars_of, contains_seq, contains_str, push_chars, push_str, split_char, split_char_seq, string_from, views};

verus! {

/// What an unauthenticated user is told when nothing of a response is left
/// to show.
pub open spec fn withheld_text() -> Seq<char> {
    "Action processed at the symbolic layer. Full cognitive derivation requires Sovereign authentication."@
}

/// A line ended by `\n` loses a final `\r`.
pub open spec fn strip_cr(l: Seq<char>) -> Seq<char> {
    if l.len() > 0 && l.last() == '\r' {
        l.drop_last()
    } else {
        l
    }
}

/// The lines of a text as `str::lines` gives them: split at `\n`, a `\r`
/// before the `\n` removed, and no empty line after a final `\n`.
pub open spec fn text_lines(s: Seq<char>) -> Seq<Seq<char>> {
    let ps = split_char_seq(s, '\n');
    let ended = ps.drop_last().map_values(|l: Seq<char>| strip_cr(l));
    if s.len() == 0 || s.last() == '\n' {
        ended
    } else {
        ended.push(ps.last())
    }
}

/// A line that opens an internal block (reasoning, plan or analysis).
pub open spec fn opens_block(l: Seq<char>) -> bool {
    contains_seq(l, "--- INTERNAL REASONING SCRATCHPAD ---"@) || contains_seq(l, "Plan:"@)
        || contains_seq(l, "Mode: Deep"@) || contains_seq(l, "Cognitive Analysis:"@)
        || contains_seq(l, "Analysis:"@)
}

/// A line that closes an internal block.
pub open spec fn closes_block(l: Seq<char>) -> bool {
    contains_seq(l, "--- END REASONING ---"@) || contains_seq(l, "--- END CODE ---"@)
}

/// The lines kept among the first `n`, and whether line `n` would fall in
/// an internal block. Block markers are never kept.
pub open spec fn kept_upto(ls: Seq<Seq<char>>, n: int) -> (Seq<Seq<char>>, bool)
    decreases n,
{
    if n <= 0 {
        (seq![], false)
    } else {
        let (kept, skipping) = kept_upto(ls, n - 1);
        let l = ls[n - 1];
        if opens_block(l) {
            (kept, true)
        } else if closes_block(l) {
            (kept, false)
        } else if skipping {
            (kept, true)
        } else {
            (kept.push(l), false)
        }
    }
}

/// Lines joined by `\n`.
pub open spec fn join_lines(ls: Seq<Seq<char>>) -> Seq<char>
    decreases ls.len(),
{
    if ls.len() == 0 {
        seq![]
    } else if ls.len() == 1 {
        ls[0]
    } else {
        join_lines(ls.drop_last()) + "\n"@ + ls.last()
    }
}

/// What an unauthenticated user sees of a response: its lines outside
/// internal blocks, or the withheld notice when no line (or only one empty
/// line) is left.
pub open spec fn guest_text(s: Seq<char>) -> Seq<char> {
    let ls = text_lines(s);
    let kept = kept_upto(ls, ls.len() as int).0;
    if kept.len() == 0 || (kept.len() == 1 && kept[0].len() == 0) {
        withheld_text()
    } else {
        join_lines(kept)
    }
}

/// Whether a line opens an internal block.
fn line_opens_block(l: &[char]) -> (r: bool)
    ensures
        r == opens_block(l@),
{
    contains_str(l, "--- INTERNAL REASONING SCRATCHPAD ---") || contains_str(l, "Plan:")
        || contains_str(l, "Mode: Deep") || contains_str(l, "Cognitive Analysis:")
        || contains_str(l, "Analysis:")
}

/// Whether a line closes an internal block.
fn line_closes_block(l: &[char]) -> (r: bool)
    ensures
        r == closes_block(l@),
{
    contains_str(l, "--- END REASONING ---") || contains_str(l, "--- END CODE ---")
}

/// The lines of a text (see `text_lines`).
fn lines_of(s: &[char]) -> (r: Vec<Vec<char>>)
    ensures
        views(r@) == text_lines(s@),
{
    let mut ps = split_char(s, '\n');
    let ghost all = views(ps@);
    assert(all.len() > 0);
    let last = ps.pop().unwrap();
    assert(views(ps@) =~= all.drop_last());
    let mut out: Vec<Vec<char>> = Vec::new();
    let mut i: usize = 0;
    while i < ps.len()
        invariant
            i <= ps@.len(),
            views(ps@) == all.drop_last(),
            views(out@) == all.drop_last().take(i as int).map_values(|l: Seq<char>| strip_cr(l)),
        decreases ps@.len() - i,
    {
        assert(views(ps@)[i as int] == ps@[i as int]@);
        let n = ps[i].len();
        let mut l: Vec<char> = Vec::new();
        let stop = if n > 0 && ps[i][n - 1] == '\r' {
            n - 1
        } else {
            n
        };
        let mut k: usize = 0;
        while k < stop
            invariant
                i < ps@.len(),
                k <= stop <= ps@[i as int]@.len(),
                l@ == ps@[i as int]@.take(k as int),
            decreases stop - k,
        {
            l.push(ps[i][k]);
            assert(ps@[i as int]@.take(k as int + 1) =~= ps@[i as int]@.take(k as int).push(ps@[i as int]@[k as int]));
            k = k + 1;
        }
        assert(l@ =~= strip_cr(ps@[i as int]@));
        let ghost before = out@;
        out.push(l);
        assert(views(out@) =~= views(before).push(strip_cr(all.drop_last()[i as int])));
        assert(all.drop_last().take(i as int + 1).map_values(|l: Seq<char>| strip_cr(l)) =~= all.drop_last().take(
            i as int,
        ).map_values(|l: Seq<char>| strip_cr(l)).push(strip_cr(all.drop_last()[i as int])));
        i = i + 1;
    }
    assert(all.drop_last().take(ps@.len() as int) =~= all.drop_last());
    if s.len() == 0 || s[s.len() - 1] == '\n' {
        out
    } else {
        let ghost before = out@;
        out.push(last);
        assert(views(out@) =~= views(before).push(all.last()));
        out
    }
}

/// What an unauthenticated user sees of a response (see `guest_text`).
pub fn sanitize_for_guest(text: &str) -> (r: String)
    ensures
        r@ == guest_text(text@),
{
    let cs = chars_of(text);
    let ls = lines_of(cs.as_slice());
    let ghost lv = views(ls@);
    let mut kept: Vec<Vec<char>> = Vec::new();
    let mut skipping = false;
    let mut i: usize = 0;
    while i < ls.len()
        invariant
            i <= ls@.len(),
            lv == views(ls@),
            (views(kept@), skipping) == kept_upto(lv, i as int),
        decreases ls@.len() - i,
    {
        assert(lv[i as int] == ls@[i as int]@);
        if line_opens_block(ls[i].as_slice()) {
            skipping = true;
        } else if line_closes_block(ls[i].as_slice()) {
            skipping = false;
        } else if !skipping {
            let ghost before = kept@;
            kept.push(crate::text::to_vec(ls[i].as_slice()));
            assert(views(kept@) =~= views(before).push(lv[i as int]));
        }
        i = i + 1;
    }
    let ghost kv = views(kept@);
    if kept.len() == 0 || (kept.len() == 1 && kept[0].len() == 0) {
        proof {
            if kept@.len() == 1 {
                assert(kv[0] == kept@[0]@);
            }
        }
        return String::from_str(
            "Action processed at the symbolic layer. Full cognitive derivation requires Sovereign authentication.",
        );
    }
    proof {
        if kept@.len() == 1 {
            assert(kv[0] == kept@[0]@);
        }
    }
    let mut out: Vec<char> = Vec::new();
    let mut j: usize = 0;
    while j < kept.len()
        invariant
            j <= kept@.len(),
            kv == views(kept@),
            out@ == join_lines(kv.take(j as int)),
        decreases kept@.len() - j,
    {
        assert(kv[j as int] == kept@[j as int]@);
        assert(kv.take(j as int + 1).drop_last() =~= kv.take(j as int));
        if j > 0 {
            push_str(&mut out, "\n");
        } else {
            assert(kv.take(1) =~= seq![kv[0]]);
        }
        push_chars(&mut out, kept[j].as_slice());
        j = j + 1;
    }
    assert(kv.take(kept@.len() as int) =~= kv);
    string_from(out.as_slice())
}

} // verus!
