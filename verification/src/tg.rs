//! Response catalog: semantic response kinds, their display text, and
//! transport-safe escaping of characters reserved by the rendering format.

use vstd::prelude::*;

verus! {

/// Semantic outbound response kinds. Display text is produced only at the
/// transport boundary, by [`render`] followed by [`escape`].
pub enum TgResponse {
    Hello,
    IncorrectRequest,
    ChosenTimezone(String),
    FailedSetTimezone(String),
}

/// Characters reserved by the transport's rendering format. Each one must be
/// preceded by a backslash in outgoing text, the backslash itself included.
pub open spec fn is_reserved(c: char) -> bool {
    ||| c == '_'
    ||| c == '*'
    ||| c == '['
    ||| c == ']'
    ||| c == '('
    ||| c == ')'
    ||| c == '~'
    ||| c == '`'
    ||| c == '>'
    ||| c == '#'
    ||| c == '+'
    ||| c == '-'
    ||| c == '='
    ||| c == '|'
    ||| c == '{'
    ||| c == '}'
    ||| c == '.'
    ||| c == '!'
    ||| c == '\\'
}

/// How one character appears in escaped text.
pub open spec fn escape_char(c: char) -> Seq<char> {
    if is_reserved(c) {
        seq!['\\', c]
    } else {
        seq![c]
    }
}

/// Escaped form of a whole character sequence.
pub open spec fn escape_seq(s: Seq<char>) -> Seq<char>
    decreases s.len(),
{
    if s.len() == 0 {
        Seq::empty()
    } else {
        escape_char(s[0]) + escape_seq(s.drop_first())
    }
}

fn reserved(c: char) -> (r: bool)
    ensures
        r == is_reserved(c),
{
    c == '_' || c == '*' || c == '[' || c == ']' || c == '(' || c == ')' || c == '~' || c == '`'
        || c == '>' || c == '#' || c == '+' || c == '-' || c == '=' || c == '|' || c == '{'
        || c == '}' || c == '.' || c == '!' || c == '\\'
}

proof fn lemma_escape_seq_snoc(s: Seq<char>, c: char)
    ensures
        escape_seq(s + seq![c]) == escape_seq(s) + escape_char(c),
    decreases s.len(),
{
    if s.len() == 0 {
        assert(s + seq![c] =~= seq![c]);
        assert((seq![c]).drop_first() =~= Seq::<char>::empty());
        assert(escape_seq(seq![c]) == escape_char(c) + escape_seq(Seq::<char>::empty()));
        assert(escape_char(c) + Seq::<char>::empty() =~= escape_char(c));
        assert(escape_seq(s) + escape_char(c) =~= escape_char(c));
    } else {
        let t = s + seq![c];
        assert(t.len() == s.len() + 1);
        assert(t[0] == s[0]);
        assert(t.drop_first() =~= s.drop_first() + seq![c]);
        lemma_escape_seq_snoc(s.drop_first(), c);
        assert(escape_seq(t) == escape_char(s[0]) + (escape_seq(s.drop_first()) + escape_char(c)));
        assert(escape_seq(s) == escape_char(s[0]) + escape_seq(s.drop_first()));
        assert(escape_char(s[0]) + (escape_seq(s.drop_first()) + escape_char(c)) =~= (escape_char(
            s[0],
        ) + escape_seq(s.drop_first())) + escape_char(c));
    }
}

/// Total escaping: every character of the input appears in the output, each
/// reserved one preceded by a backslash.
pub fn escape(s: &str) -> (out: String)
    ensures
        out@ == escape_seq(s@),
{
    let n = s.unicode_len();
    let mut out = String::new();
    let mut i: usize = 0;
    while i < n
        invariant
            i <= n,
            n == s@.len(),
            out@ == escape_seq(s@.take(i as int)),
        decreases n - i,
    {
        let c = s.get_char(i);
        let piece = s.substring_char(i, i + 1);
        if reserved(c) {
            out.append("\\");
            proof {
                reveal_strlit("\\");
            }
        }
        out.append(piece);
        proof {
            assert(piece@ =~= seq![s@[i as int]]);
            lemma_escape_seq_snoc(s@.take(i as int), s@[i as int]);
            assert(s@.take(i as int + 1) =~= s@.take(i as int) + seq![s@[i as int]]);
            assert(out@ =~= escape_seq(s@.take(i as int + 1)));
        }
        i = i + 1;
    }
    proof {
        assert(s@.take(n as int) =~= s@);
    }
    out
}

/// Display text of each response kind, before escaping.
pub open spec fn response_text(r: TgResponse) -> Seq<char> {
    match r {
        TgResponse::Hello => "Hello! I'm Rações bot. My purpose is to track how much ration you have given your pet! \n\nBefore we start, please either send me your location or manually select the timezone using the /settimezone command first."@,
        TgResponse::IncorrectRequest => "Incorrect request"@,
        TgResponse::ChosenTimezone(tz) => "Selected timezone: "@ + tz@ + "!"@,
        TgResponse::FailedSetTimezone(tz) => "Failed to set timezone "@ + tz@,
    }
}

/// Turn a response kind into its display text.
pub fn render(r: &TgResponse) -> (out: String)
    ensures
        out@ == response_text(*r),
{
    match r {
        TgResponse::Hello => String::from_str(
            "Hello! I'm Rações bot. My purpose is to track how much ration you have given your pet! \n\nBefore we start, please either send me your location or manually select the timezone using the /settimezone command first.",
        ),
        TgResponse::IncorrectRequest => String::from_str("Incorrect request"),
        TgResponse::ChosenTimezone(tz) => String::from_str("Selected timezone: ").concat(
            tz.as_str(),
        ).concat("!"),
        TgResponse::FailedSetTimezone(tz) => String::from_str("Failed to set timezone ").concat(
            tz.as_str(),
        ),
    }
}

/// Display text of a response kind, escaped for the transport: what actually
/// goes out for each of the four kinds.
pub fn render_escaped(r: &TgResponse) -> (out: String)
    ensures
        out@ == escape_seq(response_text(*r)),
{
    let text = render(r);
    escape(text.as_str())
}

/// Well-formed transport text: every reserved character is consumed by a
/// preceding backslash, so none of them reaches the renderer unescaped.
pub open spec fn well_escaped(s: Seq<char>) -> bool
    decreases s.len(),
{
    if s.len() == 0 {
        true
    } else if s[0] == '\\' {
        s.len() >= 2 && is_reserved(s[1]) && well_escaped(s.skip(2))
    } else {
        !is_reserved(s[0]) && well_escaped(s.drop_first())
    }
}

/// Reading escaped text back: each backslash yields the character it
/// protects, every other character yields itself.
pub open spec fn unescape_seq(s: Seq<char>) -> Seq<char>
    decreases s.len(),
{
    if s.len() == 0 {
        Seq::empty()
    } else if s[0] == '\\' && s.len() >= 2 {
        seq![s[1]] + unescape_seq(s.skip(2))
    } else {
        seq![s[0]] + unescape_seq(s.drop_first())
    }
}

/// Escaping is total and safe for rendering: whatever the input — catalog
/// output included — the escaped text has no unescaped reserved character.
pub proof fn lemma_escape_well_formed(s: Seq<char>)
    ensures
        well_escaped(escape_seq(s)),
    decreases s.len(),
{
    if s.len() > 0 {
        lemma_escape_well_formed(s.drop_first());
        let e = escape_seq(s);
        if is_reserved(s[0]) {
            assert(e == seq!['\\', s[0]] + escape_seq(s.drop_first()));
            assert(e[0] == '\\');
            assert(e[1] == s[0]);
            assert(e.skip(2) =~= escape_seq(s.drop_first()));
        } else {
            assert(e == seq![s[0]] + escape_seq(s.drop_first()));
            assert(e[0] == s[0]);
            assert(e.drop_first() =~= escape_seq(s.drop_first()));
        }
    }
}

/// Escaping drops nothing: the input text can be read back from the
/// escaped text character for character.
pub proof fn lemma_escape_lossless(s: Seq<char>)
    ensures
        unescape_seq(escape_seq(s)) == s,
    decreases s.len(),
{
    if s.len() == 0 {
        assert(unescape_seq(escape_seq(s)) =~= s);
    } else {
        lemma_escape_lossless(s.drop_first());
        let e = escape_seq(s);
        if is_reserved(s[0]) {
            assert(e == seq!['\\', s[0]] + escape_seq(s.drop_first()));
            assert(e[0] == '\\');
            assert(e.len() >= 2);
            assert(e[1] == s[0]);
            assert(e.skip(2) =~= escape_seq(s.drop_first()));
            assert(unescape_seq(e) == seq![s[0]] + s.drop_first());
            assert(seq![s[0]] + s.drop_first() =~= s);
        } else {
            assert(e == seq![s[0]] + escape_seq(s.drop_first()));
            assert(e[0] == s[0]);
            assert(e[0] != '\\');
            assert(e.drop_first() =~= escape_seq(s.drop_first()));
            assert(unescape_seq(e) == seq![s[0]] + s.drop_first());
            assert(seq![s[0]] + s.drop_first() =~= s);
        }
    }
}

} // verus!
