//! Splitting the free-form "extra arguments" text into separate arguments.
use vstd::prelude::*;
use crate::args::{strings_view, push_arg};
use crate::text::{chars_of, string_of, is_white_space, is_white_space_char};

verus! {

/// The state of the splitter after some prefix of the text: the finished
/// arguments, the argument being read, the open quote (if any), and whether the
/// previous character was an escaping back slash.
pub type SplitState = (Seq<Seq<char>>, Seq<char>, Option<char>, bool);

/// The state before any character is read.
pub open spec fn split_start() -> SplitState {
    (Seq::empty(), Seq::empty(), None, false)
}

/// How one character moves the splitter.
///
/// Inside quotes a back slash escapes the next character and the matching quote
/// closes them; outside quotes `"` or `'` opens a quote, white space ends the
/// current argument, and every other character is kept.
pub open spec fn split_step(st: SplitState, c: char) -> SplitState {
    let (args, current, quote, escaped) = st;
    if escaped {
        (args, current.push(c), quote, false)
    } else if c == '\\' && quote is Some {
        (args, current, quote, true)
    } else if quote is Some {
        if c == quote->0 {
            (args, current, None, false)
        } else {
            (args, current.push(c), quote, false)
        }
    } else if c == '"' || c == '\'' {
        (args, current, Some(c), false)
    } else if is_white_space(c) {
        if current.len() > 0 {
            (args.push(current), Seq::empty(), None, false)
        } else {
            st
        }
    } else {
        (args, current.push(c), quote, false)
    }
}

/// The splitter's state after reading all of `s`, starting from `st`.
pub open spec fn split_run(st: SplitState, s: Seq<char>) -> SplitState
    decreases s.len(),
{
    if s.len() == 0 {
        st
    } else {
        split_step(split_run(st, s.drop_last()), s.last())
    }
}

/// The message for text that ends inside a quote.
pub open spec fn unclosed_quote_message() -> Seq<char> {
    "Extra yt-dlp arguments contain an unclosed quote"@
}

/// The arguments written in `raw`, or why they cannot be read.
pub open spec fn extra_args_spec(raw: Seq<char>) -> Result<Seq<Seq<char>>, Seq<char>> {
    let (args, current, quote, escaped) = split_run(split_start(), raw);
    let current = if escaped { current.push('\\') } else { current };
    if quote is Some {
        Err(unclosed_quote_message())
    } else if current.len() > 0 {
        Ok(args.push(current))
    } else {
        Ok(args)
    }
}

/// Splits the extra-arguments text the way a shell splits words: on white space,
/// with `"` or `'` quoting and, inside quotes, back slash escaping.
pub fn parse_extra_args(raw_args: &str) -> (r: Result<Vec<String>, String>)
    ensures
        r is Ok <==> extra_args_spec(raw_args@) is Ok,
        r matches Ok(v) ==> extra_args_spec(raw_args@) == Ok::<Seq<Seq<char>>, Seq<char>>(
            strings_view(v@),
        ),
        r matches Err(e) ==> extra_args_spec(raw_args@) == Err::<Seq<Seq<char>>, Seq<char>>(e@),
{
    let s = chars_of(raw_args);
    let mut args: Vec<String> = Vec::new();
    let mut current: Vec<char> = Vec::new();
    let mut quote: Option<char> = None;
    let mut escaped = false;
    for i in 0..s.len()
        invariant
            s@ == raw_args@,
            split_run(split_start(), s@.take(i as int)) == (
                strings_view(args@),
                current@,
                quote,
                escaped,
            ),
    {
        let c = s[i];
        proof {
            assert(s@.take(i + 1).drop_last() == s@.take(i as int));
            assert(s@.take(i + 1).last() == c);
        }
        if escaped {
            current.push(c);
            escaped = false;
        } else if c == '\\' && quote.is_some() {
            escaped = true;
        } else if quote.is_some() {
            let q = quote.unwrap();
            if c == q {
                quote = None;
            } else {
                current.push(c);
            }
        } else if c == '"' || c == '\'' {
            quote = Some(c);
        } else if is_white_space_char(c) {
            if current.len() > 0 {
                let word = string_of(&current);
                push_arg(&mut args, word);
                current = Vec::new();
            }
        } else {
            current.push(c);
        }
    }
    proof {
        assert(s@.take(s@.len() as int) == s@);
    }
    if escaped {
        current.push('\\');
    }
    if quote.is_some() {
        return Err(String::from_str("Extra yt-dlp arguments contain an unclosed quote"));
    }
    if current.len() > 0 {
        let word = string_of(&current);
        push_arg(&mut args, word);
    }
    Ok(args)
}


// ---------------------------------------------------------------------------
// Laws
// ---------------------------------------------------------------------------

/// A character that the splitter keeps as it is outside quotes.
pub open spec fn plain_char(c: char) -> bool {
    !is_white_space(c) && c != '"' && c != '\''
}

/// A non-empty word of plain characters.
pub open spec fn plain_word(w: Seq<char>) -> bool {
    w.len() > 0 && forall|i: int| 0 <= i < w.len() ==> plain_char(#[trigger] w[i])
}

/// The words of `ws` joined by single spaces.
pub open spec fn join_words(ws: Seq<Seq<char>>) -> Seq<char>
    decreases ws.len(),
{
    if ws.len() == 0 {
        Seq::empty()
    } else if ws.len() == 1 {
        ws[0]
    } else {
        join_words(ws.drop_last()) + seq![' '] + ws.last()
    }
}

proof fn lemma_run_concat(st: SplitState, a: Seq<char>, b: Seq<char>)
    ensures
        split_run(st, a + b) == split_run(split_run(st, a), b),
    decreases b.len(),
{
    if b.len() == 0 {
        assert(a + b == a);
    } else {
        assert((a + b).drop_last() == a + b.drop_last());
        assert((a + b).last() == b.last());
        lemma_run_concat(st, a, b.drop_last());
    }
}

proof fn lemma_run_plain(args: Seq<Seq<char>>, cur: Seq<char>, w: Seq<char>)
    requires
        forall|i: int| 0 <= i < w.len() ==> plain_char(#[trigger] w[i]),
    ensures
        split_run((args, cur, None, false), w) == (args, cur + w, None::<char>, false),
    decreases w.len(),
{
    if w.len() == 0 {
        assert(cur + w == cur);
    } else {
        let wd = w.drop_last();
        assert forall|i: int| 0 <= i < wd.len() implies plain_char(#[trigger] wd[i]) by {
            assert(wd[i] == w[i]);
        }
        lemma_run_plain(args, cur, wd);
        assert(plain_char(w[w.len() - 1]));
        assert((cur + wd).push(w.last()) == cur + w);
    }
}

proof fn lemma_run_join(ws: Seq<Seq<char>>)
    requires
        ws.len() > 0,
        forall|i: int| 0 <= i < ws.len() ==> plain_word(#[trigger] ws[i]),
    ensures
        split_run(split_start(), join_words(ws)) == (
            ws.drop_last(),
            ws.last(),
            None::<char>,
            false,
        ),
    decreases ws.len(),
{
    let e: Seq<char> = Seq::empty();
    if ws.len() == 1 {
        assert(plain_word(ws[0]));
        lemma_run_plain(Seq::empty(), e, ws[0]);
        assert(e + ws[0] == ws[0]);
        assert(ws.drop_last() == Seq::<Seq<char>>::empty());
    } else {
        let wd = ws.drop_last();
        assert forall|i: int| 0 <= i < wd.len() implies plain_word(#[trigger] wd[i]) by {
            assert(wd[i] == ws[i]);
        }
        lemma_run_join(wd);
        assert(plain_word(ws[ws.len() - 1]));
        assert(plain_word(wd[wd.len() - 1]));
        let head = join_words(wd);
        assert(join_words(ws) == head + seq![' '] + ws.last());
        lemma_run_concat(split_start(), head + seq![' '], ws.last());
        lemma_run_concat(split_start(), head, seq![' ']);
        let st1 = split_run(split_start(), head);
        assert(st1 == (wd.drop_last(), wd.last(), None::<char>, false));
        assert(seq![' '].drop_last() == e);
        assert(split_run(st1, e) == st1);
        assert(is_white_space(' '));
        assert(wd.last().len() > 0);
        assert(wd.drop_last().push(wd.last()) == wd);
        assert(split_run(st1, seq![' ']) == split_step(st1, ' '));
        assert(split_step(st1, ' ') == (wd, e, None::<char>, false));
        lemma_run_plain(wd, e, ws.last());
        assert(e + ws.last() == ws.last());
    }
}

/// Plain words joined by single spaces split back into exactly those words.
pub proof fn law_plain_words_round_trip(ws: Seq<Seq<char>>)
    requires
        forall|i: int| 0 <= i < ws.len() ==> plain_word(#[trigger] ws[i]),
    ensures
        extra_args_spec(join_words(ws)) == Ok::<Seq<Seq<char>>, Seq<char>>(ws),
{
    if ws.len() > 0 {
        lemma_run_join(ws);
        assert(plain_word(ws[ws.len() - 1]));
        assert(ws.drop_last().push(ws.last()) == ws);
    } else {
        assert(ws == Seq::<Seq<char>>::empty());
    }
}

proof fn lemma_run_quoted(args: Seq<Seq<char>>, cur: Seq<char>, q: char, w: Seq<char>)
    requires
        forall|i: int| 0 <= i < w.len() ==> #[trigger] w[i] != q && w[i] != '\\',
    ensures
        split_run((args, cur, Some(q), false), w) == (args, cur + w, Some(q), false),
    decreases w.len(),
{
    if w.len() == 0 {
        assert(cur + w == cur);
    } else {
        let wd = w.drop_last();
        assert forall|i: int| 0 <= i < wd.len() implies #[trigger] wd[i] != q && wd[i] != '\\' by {
            assert(wd[i] == w[i]);
        }
        lemma_run_quoted(args, cur, q, wd);
        assert(w[w.len() - 1] != q);
        assert((cur + wd).push(w.last()) == cur + w);
    }
}

/// Text between a pair of quotes, holding neither that quote nor a back slash,
/// is read as one argument, white space and all (nothing when it is empty).
pub proof fn law_quoted_text_is_one_argument(q: char, w: Seq<char>)
    requires
        q == '"' || q == '\'',
        forall|i: int| 0 <= i < w.len() ==> #[trigger] w[i] != q && w[i] != '\\',
    ensures
        extra_args_spec(seq![q] + w + seq![q]) == if w.len() > 0 {
            Ok::<Seq<Seq<char>>, Seq<char>>(seq![w])
        } else {
            Ok::<Seq<Seq<char>>, Seq<char>>(Seq::empty())
        },
{
    let e: Seq<char> = Seq::empty();
    let none: Seq<Seq<char>> = Seq::empty();
    lemma_run_concat(split_start(), seq![q] + w, seq![q]);
    lemma_run_concat(split_start(), seq![q], w);
    assert(seq![q].drop_last() == e);
    assert(split_run(split_start(), e) == split_start());
    assert(split_run(split_start(), seq![q]) == (none, e, Some(q), false));
    lemma_run_quoted(none, e, q, w);
    assert(e + w == w);
    let st = (none, w, Some(q), false);
    assert(split_run(st, seq![q]) == split_step(split_run(st, e), q));
    assert(split_run(st, e) == st);
    assert(split_step(st, q) == (none, w, None::<char>, false));
    assert(none.push(w) == seq![w]);
}

proof fn lemma_run_nonempty(st: SplitState, s: Seq<char>)
    requires
        forall|i: int| 0 <= i < st.0.len() ==> (#[trigger] st.0[i]).len() > 0,
    ensures
        forall|i: int|
            0 <= i < split_run(st, s).0.len() ==> (#[trigger] split_run(st, s).0[i]).len() > 0,
    decreases s.len(),
{
    if s.len() > 0 {
        lemma_run_nonempty(st, s.drop_last());
        let prev = split_run(st, s.drop_last());
        let next = split_step(prev, s.last());
        assert(split_run(st, s) == next);
        assert forall|i: int| 0 <= i < next.0.len() implies (#[trigger] next.0[i]).len() > 0 by {
            if i < prev.0.len() {
                assert(next.0[i] == prev.0[i]);
            }
        }
    }
}

/// No argument read from the extra-arguments text is empty.
pub proof fn law_extra_args_nonempty(raw: Seq<char>)
    ensures
        extra_args_spec(raw) matches Ok(args) ==> forall|i: int|
            0 <= i < args.len() ==> (#[trigger] args[i]).len() > 0,
{
    lemma_run_nonempty(split_start(), raw);
}


/// The maximal runs of non-white-space characters of `s`, in order
/// (`str::split_whitespace`): a character that is not white space extends the
/// word before it when it directly follows one, and starts a new word otherwise.
pub open spec fn white_space_words(s: Seq<char>) -> Seq<Seq<char>>
    decreases s.len(),
{
    if s.len() == 0 {
        Seq::empty()
    } else {
        let prev = white_space_words(s.drop_last());
        let c = s.last();
        if is_white_space(c) {
            prev
        } else if s.len() >= 2 && !is_white_space(s[s.len() - 2]) {
            prev.drop_last().push(prev.last().push(c))
        } else {
            prev.push(seq![c])
        }
    }
}

proof fn lemma_run_unquoted(s: Seq<char>)
    requires
        forall|i: int| 0 <= i < s.len() ==> #[trigger] s[i] != '"' && s[i] != '\'',
    ensures
        ({
            let (args, current, quote, escaped) = split_run(split_start(), s);
            &&& quote is None
            &&& !escaped
            &&& if s.len() > 0 && !is_white_space(s.last()) {
                current.len() > 0 && white_space_words(s) == args.push(current)
            } else {
                current.len() == 0 && white_space_words(s) == args
            }
        }),
    decreases s.len(),
{
    if s.len() > 0 {
        let d = s.drop_last();
        assert forall|i: int| 0 <= i < d.len() implies #[trigger] d[i] != '"' && d[i] != '\'' by {
            assert(d[i] == s[i]);
        }
        lemma_run_unquoted(d);
        assert(s[s.len() - 1] != '"' && s[s.len() - 1] != '\'');
        let st = split_run(split_start(), d);
        let (args, current, quote, escaped) = st;
        let c = s.last();
        assert(split_run(split_start(), s) == split_step(st, c));
        let prev = white_space_words(d);
        if d.len() > 0 {
            assert(d.last() == s[s.len() - 2]);
        }
        if is_white_space(c) {
            if current.len() > 0 {
                assert(split_step(st, c) == (args.push(current), Seq::<char>::empty(), None::<char>, false));
            } else {
                assert(split_step(st, c) == st);
            }
        } else {
            assert(split_step(st, c) == (args, current.push(c), None::<char>, false));
            if d.len() > 0 && !is_white_space(d.last()) {
                assert(prev.drop_last() == args);
                assert(prev.last() == current);
            } else {
                assert(current.push(c) =~= seq![c]);
            }
        }
    }
}

/// Text without quote characters is split exactly as `str::split_whitespace`
/// splits it.
pub proof fn law_unquoted_text_splits_on_white_space(raw: Seq<char>)
    requires
        forall|i: int| 0 <= i < raw.len() ==> #[trigger] raw[i] != '"' && raw[i] != '\'',
    ensures
        extra_args_spec(raw) == Ok::<Seq<Seq<char>>, Seq<char>>(white_space_words(raw)),
{
    lemma_run_unquoted(raw);
}

} // verus!
