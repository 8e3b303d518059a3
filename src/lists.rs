//! Bracketed, separated lists: the elements come out exactly and in order,
//! and a separator just before the closing token adds none. Without its
//! closing token a list fails with `UnexpectedEnd`.
use vstd::prelude::*;
use crate::span::{FileId, merge_fc};
use crate::token::{Token, Punct, is_punct};
use crate::error::{Error, ErrorContext};
use crate::grammar::{list_rest, list_at};
use crate::parser::ElementParser;
use crate::spans::advances;

verus! {

/// Where the list opened at `pos` has its `k`-th element start: after the
/// opening token, then after each separator.
pub open spec fn element_start(pos: int, ends: Seq<int>, k: int) -> int {
    if k == 0 {
        pos + 1
    } else {
        ends[k - 1] + 1
    }
}

/// The tokens after the opening token at `pos` hold the elements `vals`,
/// the `i`-th parsed by `el` from `element_start(pos, ends, i)` to
/// `ends[i]`, with one separator after each but the last, then at most one
/// separator, then the closing token at `c`.
pub open spec fn list_layout<E: ElementParser>(
    toks: Seq<Token>,
    file: FileId,
    el: E,
    pos: int,
    close: Punct,
    sep: Punct,
    vals: Seq<E::Out>,
    ends: Seq<int>,
    c: int,
) -> bool {
    let n = vals.len() as int;
    &&& ends.len() == n
    &&& 0 <= pos
    &&& 0 <= c < toks.len()
    &&& is_punct(toks[c].kind, close)
    &&& forall|i: int|
        0 <= i < n ==> element_start(pos, ends, i) < toks.len() && !is_punct(
            toks[element_start(pos, ends, i)].kind,
            close,
        ) && #[trigger] el.element_at(toks, file, element_start(pos, ends, i)) == Ok::<
            (E::Out, int),
            crate::error::Error,
        >((vals[i], ends[i]))
    &&& forall|i: int|
        0 <= i < n - 1 ==> #[trigger] ends[i] < toks.len() && is_punct(toks[ends[i]].kind, sep)
            && !is_punct(toks[ends[i]].kind, close)
    &&& n == 0 ==> c == pos + 1
    &&& n > 0 ==> (c == ends[n - 1] || (c == ends[n - 1] + 1 && is_punct(
        toks[ends[n - 1]].kind,
        sep,
    ) && !is_punct(toks[ends[n - 1]].kind, close)))
}

proof fn lemma_list_layout<E: ElementParser>(
    toks: Seq<Token>,
    file: FileId,
    el: E,
    pos: int,
    close: Punct,
    sep: Punct,
    sep_ctx: ErrorContext,
    vals: Seq<E::Out>,
    ends: Seq<int>,
    c: int,
    k: int,
)
    requires
        advances(toks, file, el),
        list_layout(toks, file, el, pos, close, sep, vals, ends, c),
        0 <= k <= vals.len(),
        0 <= element_start(pos, ends, k),
        k == vals.len() ==> (k == 0 || c == ends[k - 1] + 1),
    ensures
        list_rest(
            toks,
            file,
            toks[pos].fc,
            vals.take(k),
            element_start(pos, ends, k),
            close,
            sep,
            sep_ctx,
            el,
        ) == Ok::<(crate::span::FC, Seq<E::Out>, int), crate::error::Error>(
            (merge_fc(toks[pos].fc, toks[c].fc), vals, c + 1),
        ),
    decreases vals.len() - k,
{
    let n = vals.len() as int;
    let q = element_start(pos, ends, k);
    if k < n {
        assert(el.element_at(toks, file, q) == Ok::<(E::Out, int), crate::error::Error>(
            (vals[k], ends[k]),
        ));
        assert(vals.take(k).push(vals[k]) =~= vals.take(k + 1));
        if k < n - 1 {
            assert(ends[k] < toks.len() && is_punct(toks[ends[k]].kind, sep) && !is_punct(
                toks[ends[k]].kind,
                close,
            ));
            assert(element_start(pos, ends, k + 1) == ends[k] + 1);
            lemma_list_layout(toks, file, el, pos, close, sep, sep_ctx, vals, ends, c, k + 1);
        } else {
            assert(vals.take(k + 1) =~= vals);
            if c != ends[k] {
                assert(element_start(pos, ends, k + 1) == ends[k] + 1);
                lemma_list_layout(toks, file, el, pos, close, sep, sep_ctx, vals, ends, c, k + 1);
            }
        }
    } else {
        assert(vals.take(k) =~= vals);
    }
}

/// A bracketed list laid out as `open E1 sep E2 ... sep En [sep] close`
/// parses to exactly the `n` elements, in order, spanning from `open` to
/// `close`, and ends after `close`. A separator before `close` adds no
/// element. `el` is any element parser that consumes a token on success,
/// as the library's three do.
pub proof fn separated_list_gives_its_elements<E: ElementParser>(
    toks: Seq<Token>,
    file: FileId,
    pos: int,
    open: Punct,
    close: Punct,
    sep: Punct,
    open_ctx: ErrorContext,
    sep_ctx: ErrorContext,
    el: E,
    vals: Seq<E::Out>,
    ends: Seq<int>,
    c: int,
)
    requires
        advances(toks, file, el),
        0 <= pos < toks.len(),
        is_punct(toks[pos].kind, open),
        list_layout(toks, file, el, pos, close, sep, vals, ends, c),
    ensures
        list_at(toks, file, pos, open, close, sep, open_ctx, sep_ctx, el) == Ok::<
            (crate::span::FC, Seq<E::Out>, int),
            crate::error::Error,
        >((merge_fc(toks[pos].fc, toks[c].fc), vals, c + 1)),
{
    lemma_list_layout(toks, file, el, pos, close, sep, sep_ctx, vals, ends, c, 0);
    assert(vals.take(0) =~= Seq::<E::Out>::empty());
}

/// The tokens after the opening token at `pos` hold the elements `vals`
/// laid out as in `list_layout`, then at most one separator, and then end,
/// with no closing token.
pub open spec fn open_list_layout<E: ElementParser>(
    toks: Seq<Token>,
    file: FileId,
    el: E,
    pos: int,
    close: Punct,
    sep: Punct,
    vals: Seq<E::Out>,
    ends: Seq<int>,
) -> bool {
    let n = vals.len() as int;
    &&& ends.len() == n
    &&& 0 <= pos
    &&& forall|i: int|
        0 <= i < n ==> element_start(pos, ends, i) < toks.len() && !is_punct(
            toks[element_start(pos, ends, i)].kind,
            close,
        ) && #[trigger] el.element_at(toks, file, element_start(pos, ends, i)) == Ok::<
            (E::Out, int),
            Error,
        >((vals[i], ends[i]))
    &&& forall|i: int|
        0 <= i < n - 1 ==> #[trigger] ends[i] < toks.len() && is_punct(toks[ends[i]].kind, sep)
            && !is_punct(toks[ends[i]].kind, close)
    &&& n == 0 ==> pos + 1 == toks.len()
    &&& n > 0 ==> (ends[n - 1] == toks.len() || (ends[n - 1] + 1 == toks.len() && is_punct(
        toks[ends[n - 1]].kind,
        sep,
    ) && !is_punct(toks[ends[n - 1]].kind, close)))
}

/// The element parser fails with `UnexpectedEnd` naming `file` where no
/// token is left.
pub open spec fn fails_at_end<E: ElementParser>(toks: Seq<Token>, file: FileId, el: E) -> bool {
    el.element_at(toks, file, toks.len() as int) matches Err(Error::UnexpectedEnd(f, _)) && f == file
}

proof fn lemma_open_list_layout<E: ElementParser>(
    toks: Seq<Token>,
    file: FileId,
    el: E,
    pos: int,
    close: Punct,
    sep: Punct,
    sep_ctx: ErrorContext,
    vals: Seq<E::Out>,
    ends: Seq<int>,
    k: int,
)
    requires
        advances(toks, file, el),
        fails_at_end(toks, file, el),
        pos < toks.len(),
        open_list_layout(toks, file, el, pos, close, sep, vals, ends),
        0 <= k <= vals.len(),
        0 <= element_start(pos, ends, k),
        k == vals.len() ==> element_start(pos, ends, k) == toks.len(),
    ensures
        ({
            let r = list_rest(
                toks,
                file,
                toks[pos].fc,
                vals.take(k),
                element_start(pos, ends, k),
                close,
                sep,
                sep_ctx,
                el,
            );
            &&& r matches Err(Error::UnexpectedEnd(f, _)) && f == file
            &&& vals.len() > 0 && ends[vals.len() - 1] == toks.len() ==> r == Err::<
                (crate::span::FC, Seq<E::Out>, int),
                Error,
            >(Error::UnexpectedEnd(file, sep_ctx))
        }),
    decreases vals.len() - k,
{
    let n = vals.len() as int;
    let q = element_start(pos, ends, k);
    if k < n {
        assert(el.element_at(toks, file, q) == Ok::<(E::Out, int), Error>((vals[k], ends[k])));
        assert(vals.take(k).push(vals[k]) =~= vals.take(k + 1));
        if k < n - 1 {
            assert(ends[k] < toks.len() && is_punct(toks[ends[k]].kind, sep) && !is_punct(
                toks[ends[k]].kind,
                close,
            ));
            assert(element_start(pos, ends, k + 1) == ends[k] + 1);
            lemma_open_list_layout(toks, file, el, pos, close, sep, sep_ctx, vals, ends, k + 1);
        } else if ends[k] != toks.len() {
            assert(element_start(pos, ends, k + 1) == ends[k] + 1);
            lemma_open_list_layout(toks, file, el, pos, close, sep, sep_ctx, vals, ends, k + 1);
        }
    }
}

/// A bracketed list whose tokens run out after `open E1 sep ... Ek [sep]`,
/// with no closing token, fails with `UnexpectedEnd` naming the file; where
/// they run out right after an element, the error carries the list's
/// separator-or-close context. `el` is any element parser that consumes a
/// token on success and fails with `UnexpectedEnd` on no tokens, as the
/// library's three do.
pub proof fn open_list_ends_unexpectedly<E: ElementParser>(
    toks: Seq<Token>,
    file: FileId,
    pos: int,
    open: Punct,
    close: Punct,
    sep: Punct,
    open_ctx: ErrorContext,
    sep_ctx: ErrorContext,
    el: E,
    vals: Seq<E::Out>,
    ends: Seq<int>,
)
    requires
        advances(toks, file, el),
        fails_at_end(toks, file, el),
        0 <= pos < toks.len(),
        is_punct(toks[pos].kind, open),
        open_list_layout(toks, file, el, pos, close, sep, vals, ends),
    ensures
        list_at(toks, file, pos, open, close, sep, open_ctx, sep_ctx, el) matches Err(
            Error::UnexpectedEnd(f, _),
        ) && f == file,
        vals.len() > 0 && ends[vals.len() - 1] == toks.len() ==> list_at(
            toks,
            file,
            pos,
            open,
            close,
            sep,
            open_ctx,
            sep_ctx,
            el,
        ) == Err::<(crate::span::FC, Seq<E::Out>, int), Error>(Error::UnexpectedEnd(file, sep_ctx)),
{
    lemma_open_list_layout(toks, file, el, pos, close, sep, sep_ctx, vals, ends, 0);
    assert(vals.take(0) =~= Seq::<E::Out>::empty());
}

} // verus!
