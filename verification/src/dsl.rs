//! The window-management command language that the Saga server answers
//! with, one command per line, and the Hyprland dispatches it becomes.
//!
//! ```text
//! FOCUS title:Firefox
//! MOVE class:kitty LEFT
//! RESIZE title:Chrome 60 40
//! SWAP title:Left class:Right
//! ```
use vstd::prelude::*;
use vstd::string::*;

use crate::text::{
    chars_of, eq_ignore_ascii_case, lines, line_spans, lowercase_of,
    range_eq_ignore_ascii_case, span_text, spans_text, spans_within, str_equal, substring,
    to_lowercase, to_uppercase, trim, trim_range, uppercase_of, views, word_spans, words,
};

verus! {

/// What a command does to its window.
#[derive(Debug, Clone, Copy, PartialEq, Eq, Structural)]
pub enum Verb {
    Focus,
    Move,
    Resize,
    Close,
    Fullscreen,
    Swap,
}

/// How a command picks its window.
#[derive(Debug, Clone, PartialEq, Eq)]
pub enum Selector {
    Title(String),
    Class(String),
}

/// One parsed command line.
#[derive(Debug, Clone, PartialEq, Eq)]
pub struct Command {
    pub verb: Verb,
    pub selector: Selector,
    pub args: Vec<String>,
}

/// Why a response could not be parsed.
#[derive(Debug, Clone, PartialEq, Eq)]
pub enum ParseError {
    UnknownVerb(String),
    MissingSelector(String),
    MissingDirection,
    InvalidDirection,
    MissingResizeArgs,
    NonNumericWidth,
    NonNumericHeight,
    MissingSecondSelector,
    InvalidSelectorType(String),
    MalformedSelector,
}

/// The mathematical value of a [`Selector`].
pub enum SelectorView {
    Title(Seq<char>),
    Class(Seq<char>),
}

/// The mathematical value of a [`Command`].
pub struct CommandView {
    pub verb: Verb,
    pub selector: SelectorView,
    pub args: Seq<Seq<char>>,
}

/// The mathematical value of a [`ParseError`].
pub enum ParseErrorView {
    UnknownVerb(Seq<char>),
    MissingSelector(Seq<char>),
    MissingDirection,
    InvalidDirection,
    MissingResizeArgs,
    NonNumericWidth,
    NonNumericHeight,
    MissingSecondSelector,
    InvalidSelectorType(Seq<char>),
    MalformedSelector,
}

impl View for Selector {
    type V = SelectorView;

    open spec fn view(&self) -> SelectorView {
        match self {
            Selector::Title(t) => SelectorView::Title(t@),
            Selector::Class(c) => SelectorView::Class(c@),
        }
    }
}

impl View for Command {
    type V = CommandView;

    open spec fn view(&self) -> CommandView {
        CommandView { verb: self.verb, selector: self.selector@, args: views(self.args@) }
    }
}

impl View for ParseError {
    type V = ParseErrorView;

    open spec fn view(&self) -> ParseErrorView {
        match self {
            ParseError::UnknownVerb(v) => ParseErrorView::UnknownVerb(v@),
            ParseError::MissingSelector(v) => ParseErrorView::MissingSelector(v@),
            ParseError::MissingDirection => ParseErrorView::MissingDirection,
            ParseError::InvalidDirection => ParseErrorView::InvalidDirection,
            ParseError::MissingResizeArgs => ParseErrorView::MissingResizeArgs,
            ParseError::NonNumericWidth => ParseErrorView::NonNumericWidth,
            ParseError::NonNumericHeight => ParseErrorView::NonNumericHeight,
            ParseError::MissingSecondSelector => ParseErrorView::MissingSecondSelector,
            ParseError::InvalidSelectorType(t) => ParseErrorView::InvalidSelectorType(t@),
            ParseError::MalformedSelector => ParseErrorView::MalformedSelector,
        }
    }
}

/// The views of a sequence of commands.
pub open spec fn command_views(cs: Seq<Command>) -> Seq<CommandView> {
    cs.map_values(|c: Command| c@)
}

/// The view of a parse result.
pub open spec fn parse_result_view(r: Result<Vec<Command>, ParseError>) -> Result<
    Seq<CommandView>,
    ParseErrorView,
> {
    match r {
        Ok(cs) => Ok(command_views(cs@)),
        Err(e) => Err(e@),
    }
}

/// The message that describes a parse error.
pub open spec fn error_message(e: ParseErrorView) -> Seq<char> {
    match e {
        ParseErrorView::UnknownVerb(v) => "Unknown verb: "@ + v,
        ParseErrorView::MissingSelector(v) => "Missing selector for verb "@ + v,
        ParseErrorView::MissingDirection => "MOVE requires a direction argument"@,
        ParseErrorView::InvalidDirection => "MOVE direction must be LEFT, RIGHT, UP, or DOWN"@,
        ParseErrorView::MissingResizeArgs =>
            "RESIZE requires two numeric arguments (width%, height%)"@,
        ParseErrorView::NonNumericWidth => "RESIZE width must be numeric"@,
        ParseErrorView::NonNumericHeight => "RESIZE height must be numeric"@,
        ParseErrorView::MissingSecondSelector => "SWAP requires a second selector argument"@,
        ParseErrorView::InvalidSelectorType(t) => "Invalid selector type: "@ + t,
        ParseErrorView::MalformedSelector => "Selector must be in format 'type:value'"@,
    }
}

/// The verb that an uppercased keyword names.
pub open spec fn verb_keyword(k: Seq<char>) -> Option<Verb> {
    if k == "FOCUS"@ {
        Some(Verb::Focus)
    } else if k == "MOVE"@ {
        Some(Verb::Move)
    } else if k == "RESIZE"@ {
        Some(Verb::Resize)
    } else if k == "CLOSE"@ {
        Some(Verb::Close)
    } else if k == "FULLSCREEN"@ {
        Some(Verb::Fullscreen)
    } else if k == "SWAP"@ {
        Some(Verb::Swap)
    } else {
        None
    }
}

/// The name of a verb as `{:?}` prints it.
pub open spec fn verb_name(v: Verb) -> Seq<char> {
    match v {
        Verb::Focus => "Focus"@,
        Verb::Move => "Move"@,
        Verb::Resize => "Resize"@,
        Verb::Close => "Close"@,
        Verb::Fullscreen => "Fullscreen"@,
        Verb::Swap => "Swap"@,
    }
}

/// `s` split at its first `':'`: the text before it and the text after it.
pub open spec fn split_at_colon(s: Seq<char>) -> Option<(Seq<char>, Seq<char>)>
    decreases s.len(),
{
    if s.len() == 0 {
        None
    } else if s[0] == ':' {
        Some((seq![], s.drop_first()))
    } else {
        match split_at_colon(s.drop_first()) {
            Some((t, v)) => Some((seq![s[0]] + t, v)),
            None => None,
        }
    }
}

/// A selector `type:value`, where the type is `title` or `class` in any case.
pub open spec fn selector_spec(s: Seq<char>) -> Result<SelectorView, ParseErrorView> {
    match split_at_colon(s) {
        None => Err(ParseErrorView::MalformedSelector),
        Some((typ, value)) => {
            let lower = lowercase_of(typ);
            if lower == "title"@ {
                Ok(SelectorView::Title(value))
            } else if lower == "class"@ {
                Ok(SelectorView::Class(value))
            } else {
                Err(ParseErrorView::InvalidSelectorType(typ))
            }
        },
    }
}

/// An uppercased direction that `MOVE` accepts.
pub open spec fn is_direction(u: Seq<char>) -> bool {
    u == "LEFT"@ || u == "RIGHT"@ || u == "UP"@ || u == "DOWN"@
}

/// An ASCII decimal digit.
pub open spec fn is_digit(c: char) -> bool {
    48 <= c as u32 <= 57
}

/// Every character is an ASCII decimal digit.
pub open spec fn all_digits(d: Seq<char>) -> bool {
    forall|i: int| 0 <= i < d.len() ==> is_digit(#[trigger] d[i])
}

/// The number that a string of decimal digits denotes.
pub open spec fn digits_value(d: Seq<char>) -> int
    decreases d.len(),
{
    if d.len() == 0 {
        0
    } else {
        digits_value(d.drop_last()) * 10 + (d.last() as u32 - 48)
    }
}

/// Text that `str::parse::<i32>` accepts: an optional sign, then one or more
/// decimal digits, denoting a number in the range of `i32`.
pub open spec fn is_i32_text(t: Seq<char>) -> bool {
    if t.len() > 0 && t[0] == '-' {
        let d = t.drop_first();
        d.len() > 0 && all_digits(d) && digits_value(d) <= 2147483648
    } else {
        let d = if t.len() > 0 && t[0] == '+' {
            t.drop_first()
        } else {
            t
        };
        d.len() > 0 && all_digits(d) && digits_value(d) <= 2147483647
    }
}

/// The error, if any, in the arguments of a command with the given verb.
pub open spec fn arg_error(verb: Verb, args: Seq<Seq<char>>) -> Option<ParseErrorView> {
    match verb {
        Verb::Move => if args.len() == 0 {
            Some(ParseErrorView::MissingDirection)
        } else if !is_direction(uppercase_of(args[0])) {
            Some(ParseErrorView::InvalidDirection)
        } else {
            None
        },
        Verb::Resize => if args.len() < 2 {
            Some(ParseErrorView::MissingResizeArgs)
        } else if !is_i32_text(args[0]) {
            Some(ParseErrorView::NonNumericWidth)
        } else if !is_i32_text(args[1]) {
            Some(ParseErrorView::NonNumericHeight)
        } else {
            None
        },
        Verb::Swap => if args.len() == 0 {
            Some(ParseErrorView::MissingSecondSelector)
        } else {
            match selector_spec(args[0]) {
                Err(e) => Some(e),
                Ok(_) => None,
            }
        },
        _ => None,
    }
}

/// What one line of a response contributes.
pub enum LineOutcome {
    /// A blank line or a comment.
    Skip,
    /// `NONE`: the response holds no window command.
    Stop,
    Fail(ParseErrorView),
    Cmd(CommandView),
}

/// The meaning of one line: blank lines and `#` comments are skipped, `NONE`
/// (in any ASCII case) ends the response with no commands, and anything else
/// is `VERB selector args...` separated by whitespace.
pub open spec fn line_outcome(line: Seq<char>) -> LineOutcome {
    let t = trim(line);
    if t.len() == 0 || t[0] == '#' {
        LineOutcome::Skip
    } else if eq_ignore_ascii_case(t, "NONE"@) {
        LineOutcome::Stop
    } else {
        let toks = words(t);
        if toks.len() == 0 {
            LineOutcome::Skip
        } else {
            match verb_keyword(uppercase_of(toks[0])) {
                None => LineOutcome::Fail(ParseErrorView::UnknownVerb(toks[0])),
                Some(verb) => if toks.len() < 2 {
                    LineOutcome::Fail(ParseErrorView::MissingSelector(toks[0]))
                } else {
                    match selector_spec(toks[1]) {
                        Err(e) => LineOutcome::Fail(e),
                        Ok(sel) => {
                            let args = toks.skip(2);
                            match arg_error(verb, args) {
                                Some(e) => LineOutcome::Fail(e),
                                None => LineOutcome::Cmd(
                                    CommandView { verb: verb, selector: sel, args: args },
                                ),
                            }
                        },
                    }
                },
            }
        }
    }
}

/// The result of reading `ls` in order after `acc` was collected: the first
/// failing line is the error, `NONE` discards everything, and otherwise the
/// commands come out in the order of their lines.
pub open spec fn parse_from(ls: Seq<Seq<char>>, acc: Seq<CommandView>) -> Result<
    Seq<CommandView>,
    ParseErrorView,
>
    decreases ls.len(),
{
    if ls.len() == 0 {
        Ok(acc)
    } else {
        match line_outcome(ls[0]) {
            LineOutcome::Skip => parse_from(ls.drop_first(), acc),
            LineOutcome::Stop => Ok(seq![]),
            LineOutcome::Fail(e) => Err(e),
            LineOutcome::Cmd(c) => parse_from(ls.drop_first(), acc.push(c)),
        }
    }
}

/// The meaning of a whole response.
pub open spec fn parse_spec(input: Seq<char>) -> Result<Seq<CommandView>, ParseErrorView> {
    parse_from(lines(input), seq![])
}

/// The text of a selector in a dispatch: `title:...` or `class:...`.
pub open spec fn selector_text(sel: SelectorView) -> Seq<char> {
    match sel {
        SelectorView::Title(t) => "title:"@ + t,
        SelectorView::Class(c) => "class:"@ + c,
    }
}

/// The selector of the other kind with the same value.
pub open spec fn swapped(sel: SelectorView) -> SelectorView {
    match sel {
        SelectorView::Title(t) => SelectorView::Class(t),
        SelectorView::Class(c) => SelectorView::Title(c),
    }
}

/// The short direction that `movewindow` takes for an uppercased direction;
/// anything unknown moves left.
pub open spec fn short_direction(u: Seq<char>) -> Seq<char> {
    if u == "LEFT"@ {
        "l"@
    } else if u == "RIGHT"@ {
        "r"@
    } else if u == "UP"@ {
        "u"@
    } else if u == "DOWN"@ {
        "d"@
    } else {
        "l"@
    }
}

/// The `i`-th argument, or `default` where there is none.
pub open spec fn arg_or(args: Seq<Seq<char>>, i: int, default: Seq<char>) -> Seq<char> {
    if 0 <= i < args.len() {
        args[i]
    } else {
        default
    }
}

/// The Hyprland dispatch text for a verb, selector text and arguments.
pub open spec fn dispatch_text(verb: Verb, sel: Seq<char>, args: Seq<Seq<char>>) -> Seq<char> {
    match verb {
        Verb::Focus => "dispatch focuswindow "@ + sel,
        Verb::Move => "dispatch focuswindow "@ + sel + " ; dispatch movewindow "@
            + short_direction(uppercase_of(arg_or(args, 0, ""@))),
        Verb::Resize => "dispatch focuswindow "@ + sel + " ; dispatch resizeactive "@ + arg_or(
            args,
            0,
            "50"@,
        ) + "% "@ + arg_or(args, 1, "50"@) + "%"@,
        Verb::Close => "dispatch closewindow "@ + sel,
        Verb::Fullscreen => "dispatch focuswindow "@ + sel + " ; dispatch fullscreen 1"@,
        Verb::Swap => "dispatch focuswindow "@ + sel + " ; dispatch swapwindow "@ + arg_or(
            args,
            0,
            ""@,
        ),
    }
}

/// The dispatch for a command aimed at `sel`.
pub open spec fn hyprctl_spec(c: CommandView, sel: SelectorView) -> Seq<char> {
    dispatch_text(c.verb, selector_text(sel), c.args)
}

/// A line's contribution, as computed.
pub enum LineResult {
    Skip,
    Stop,
    Fail(ParseError),
    Cmd(Command),
}

impl View for LineResult {
    type V = LineOutcome;

    open spec fn view(&self) -> LineOutcome {
        match self {
            LineResult::Skip => LineOutcome::Skip,
            LineResult::Stop => LineOutcome::Stop,
            LineResult::Fail(e) => LineOutcome::Fail(e@),
            LineResult::Cmd(c) => LineOutcome::Cmd(c@),
        }
    }
}

/// The view of a selector result.
pub open spec fn selector_result_view(r: Result<Selector, ParseError>) -> Result<
    SelectorView,
    ParseErrorView,
> {
    match r {
        Ok(s) => Ok(s@),
        Err(e) => Err(e@),
    }
}

proof fn lemma_split_at_first_colon(s: Seq<char>, k: int)
    requires
        0 <= k < s.len(),
        s[k] == ':',
        forall|j: int| 0 <= j < k ==> s[j] != ':',
    ensures
        split_at_colon(s) == Some((s.take(k), s.skip(k + 1))),
    decreases k,
{
    if k > 0 {
        lemma_split_at_first_colon(s.drop_first(), k - 1);
        assert(seq![s[0]] + s.drop_first().take(k - 1) =~= s.take(k));
        assert(s.drop_first().skip(k) =~= s.skip(k + 1));
    } else {
        assert(s.drop_first() =~= s.skip(1));
        assert(s.take(0) =~= Seq::<char>::empty());
    }
}

proof fn lemma_no_colon(s: Seq<char>)
    requires
        forall|j: int| 0 <= j < s.len() ==> s[j] != ':',
    ensures
        split_at_colon(s) is None,
    decreases s.len(),
{
    if s.len() > 0 {
        lemma_no_colon(s.drop_first());
    }
}

impl Verb {
    /// The verb's name as `{:?}` prints it.
    pub fn name(&self) -> (r: String)
        ensures
            r@ == verb_name(*self),
    {
        match self {
            Verb::Focus => String::from_str("Focus"),
            Verb::Move => String::from_str("Move"),
            Verb::Resize => String::from_str("Resize"),
            Verb::Close => String::from_str("Close"),
            Verb::Fullscreen => String::from_str("Fullscreen"),
            Verb::Swap => String::from_str("Swap"),
        }
    }
}

impl ParseError {
    /// The message that describes the error.
    pub fn to_string(&self) -> (r: String)
        ensures
            r@ == error_message(self@),
    {
        match self {
            ParseError::UnknownVerb(v) => String::from_str("Unknown verb: ").concat(v.as_str()),
            ParseError::MissingSelector(v) => String::from_str("Missing selector for verb ").concat(
                v.as_str(),
            ),
            ParseError::MissingDirection => String::from_str("MOVE requires a direction argument"),
            ParseError::InvalidDirection => String::from_str(
                "MOVE direction must be LEFT, RIGHT, UP, or DOWN",
            ),
            ParseError::MissingResizeArgs => String::from_str(
                "RESIZE requires two numeric arguments (width%, height%)",
            ),
            ParseError::NonNumericWidth => String::from_str("RESIZE width must be numeric"),
            ParseError::NonNumericHeight => String::from_str("RESIZE height must be numeric"),
            ParseError::MissingSecondSelector => String::from_str(
                "SWAP requires a second selector argument",
            ),
            ParseError::InvalidSelectorType(t) => String::from_str(
                "Invalid selector type: ",
            ).concat(t.as_str()),
            ParseError::MalformedSelector => String::from_str(
                "Selector must be in format 'type:value'",
            ),
        }
    }
}

/// The verb that an uppercased keyword names.
pub fn verb_from_keyword(k: &str) -> (r: Option<Verb>)
    ensures
        r == verb_keyword(k@),
{
    if str_equal(k, "FOCUS") {
        Some(Verb::Focus)
    } else if str_equal(k, "MOVE") {
        Some(Verb::Move)
    } else if str_equal(k, "RESIZE") {
        Some(Verb::Resize)
    } else if str_equal(k, "CLOSE") {
        Some(Verb::Close)
    } else if str_equal(k, "FULLSCREEN") {
        Some(Verb::Fullscreen)
    } else if str_equal(k, "SWAP") {
        Some(Verb::Swap)
    } else {
        None
    }
}

/// Parses a selector `type:value`; the type is `title` or `class` in any
/// case, the value is everything after the first colon.
pub fn parse_selector(s: &str) -> (r: Result<Selector, ParseError>)
    ensures
        selector_result_view(r) == selector_spec(s@),
{
    let v = chars_of(s);
    let mut k: usize = 0;
    while k < v.len() && v[k] != ':'
        invariant
            k <= v@.len(),
            forall|j: int| 0 <= j < k ==> v@[j] != ':',
        decreases v@.len() - k,
    {
        k = k + 1;
    }
    if k == v.len() {
        proof {
            lemma_no_colon(s@);
        }
        return Err(ParseError::MalformedSelector);
    }
    proof {
        lemma_split_at_first_colon(s@, k as int);
    }
    let typ = substring(s, 0, k);
    let value = substring(s, k + 1, v.len());
    assert(typ@ == s@.take(k as int));
    assert(value@ == s@.skip(k + 1));
    let lower = to_lowercase(typ.as_str());
    if str_equal(lower.as_str(), "title") {
        Ok(Selector::Title(value))
    } else if str_equal(lower.as_str(), "class") {
        Ok(Selector::Class(value))
    } else {
        Err(ParseError::InvalidSelectorType(typ))
    }
}

/// Whether `v[a..b]` is text that `str::parse::<i32>` accepts.
pub fn is_i32_range(v: &Vec<char>, a: usize, b: usize) -> (r: bool)
    requires
        a <= b <= v@.len(),
    ensures
        r == is_i32_text(v@.subrange(a as int, b as int)),
{
    let ghost t = v@.subrange(a as int, b as int);
    let mut start = a;
    let mut limit: u64 = 2147483647;
    if b > a && v[a] == '-' {
        start = a + 1;
        limit = 2147483648;
        assert(t.drop_first() =~= v@.subrange(start as int, b as int));
    } else if b > a && v[a] == '+' {
        start = a + 1;
        assert(t.drop_first() =~= v@.subrange(start as int, b as int));
    }
    let ghost d = v@.subrange(start as int, b as int);
    assert(is_i32_text(t) == (d.len() > 0 && all_digits(d) && digits_value(d) <= limit));
    if start == b {
        return false;
    }
    let mut acc: u64 = 0;
    let mut over = false;
    let mut j = start;
    assert(v@.subrange(start as int, start as int) =~= Seq::<char>::empty());
    while j < b
        invariant
            a <= start <= j <= b <= v@.len(),
            limit <= 2147483648,
            d == v@.subrange(start as int, b as int),
            t == v@.subrange(a as int, b as int),
            is_i32_text(t) == (d.len() > 0 && all_digits(d) && digits_value(d) <= limit),
            forall|i: int| start <= i < j ==> is_digit(v@[i]),
            !over ==> acc == digits_value(v@.subrange(start as int, j as int)) && acc <= limit,
            over ==> digits_value(v@.subrange(start as int, j as int)) > limit,
        decreases b - j,
    {
        let c = v[j];
        let u = c as u32;
        if !(48 <= u && u <= 57) {
            assert(!all_digits(v@.subrange(start as int, b as int))) by {
                assert(v@.subrange(start as int, b as int)[j - start] == c);
            }
            return false;
        }
        let ghost prefix = v@.subrange(start as int, j as int);
        let ghost next = v@.subrange(start as int, j + 1);
        assert(next.drop_last() =~= prefix);
        assert(digits_value(next) == digits_value(prefix) * 10 + (u - 48));
        if !over {
            let nacc = acc * 10 + (u - 48) as u64;
            if nacc > limit {
                over = true;
            } else {
                acc = nacc;
            }
        }
        j = j + 1;
    }
    assert(all_digits(v@.subrange(start as int, b as int))) by {
        assert forall|i: int| 0 <= i < v@.subrange(start as int, b as int).len() implies is_digit(
            #[trigger] v@.subrange(start as int, b as int)[i],
        ) by {
            assert(v@.subrange(start as int, b as int)[i] == v@[start + i]);
        }
    }
    !over
}

/// Whether an uppercased word is a direction that `MOVE` accepts.
pub fn is_direction_word(u: &str) -> (r: bool)
    ensures
        r == is_direction(u@),
{
    str_equal(u, "LEFT") || str_equal(u, "RIGHT") || str_equal(u, "UP") || str_equal(u, "DOWN")
}

/// The error, if any, in the arguments of a command with the given verb.
pub fn check_args(verb: Verb, args: &Vec<String>) -> (r: Option<ParseError>)
    ensures
        match r {
            Some(e) => arg_error(verb, views(args@)) == Some(e@),
            None => arg_error(verb, views(args@)) is None,
        },
{
    match verb {
        Verb::Move => {
            if args.len() == 0 {
                return Some(ParseError::MissingDirection);
            }
            let up = to_uppercase(args[0].as_str());
            if !is_direction_word(up.as_str()) {
                return Some(ParseError::InvalidDirection);
            }
            None
        },
        Verb::Resize => {
            if args.len() < 2 {
                return Some(ParseError::MissingResizeArgs);
            }
            let w = chars_of(args[0].as_str());
            if !is_i32_range(&w, 0, w.len()) {
                assert(w@.subrange(0, w@.len() as int) =~= w@);
                return Some(ParseError::NonNumericWidth);
            }
            assert(w@.subrange(0, w@.len() as int) =~= w@);
            let h = chars_of(args[1].as_str());
            assert(h@.subrange(0, h@.len() as int) =~= h@);
            if !is_i32_range(&h, 0, h.len()) {
                return Some(ParseError::NonNumericHeight);
            }
            None
        },
        Verb::Swap => {
            if args.len() == 0 {
                return Some(ParseError::MissingSecondSelector);
            }
            match parse_selector(args[0].as_str()) {
                Err(e) => Some(e),
                Ok(_) => None,
            }
        },
        _ => None,
    }
}

/// What the line `v[a..b]` of the response `s` contributes.
pub fn parse_line(s: &str, v: &Vec<char>, a: usize, b: usize) -> (r: LineResult)
    requires
        v@ == s@,
        a <= b <= v@.len(),
    ensures
        r@ == line_outcome(v@.subrange(a as int, b as int)),
{
    let (ta, tb) = trim_range(v, a, b);
    let ghost t = v@.subrange(ta as int, tb as int);
    if ta == tb || v[ta] == '#' {
        return LineResult::Skip;
    }
    if range_eq_ignore_ascii_case(v, ta, tb, "NONE") {
        return LineResult::Stop;
    }
    let spans = word_spans(v, ta, tb);
    let ghost toks = words(t);
    assert(spans_text(v@, spans@) == toks);
    if spans.len() == 0 {
        return LineResult::Skip;
    }
    let (a0, b0) = spans[0];
    assert(toks[0] == span_text(v@, spans@[0]));
    let tok0 = substring(s, a0, b0);
    let up = to_uppercase(tok0.as_str());
    let verb = match verb_from_keyword(up.as_str()) {
        None => {
            return LineResult::Fail(ParseError::UnknownVerb(tok0));
        },
        Some(verb) => verb,
    };
    if spans.len() < 2 {
        return LineResult::Fail(ParseError::MissingSelector(tok0));
    }
    let (a1, b1) = spans[1];
    assert(toks[1] == span_text(v@, spans@[1]));
    let tok1 = substring(s, a1, b1);
    let sel = match parse_selector(tok1.as_str()) {
        Err(e) => {
            return LineResult::Fail(e);
        },
        Ok(sel) => sel,
    };
    let mut args: Vec<String> = Vec::new();
    let mut k: usize = 2;
    while k < spans.len()
        invariant
            2 <= k <= spans@.len(),
            v@ == s@,
            spans_within(spans@, ta as int, tb as int),
            tb <= v@.len(),
            spans_text(v@, spans@) == toks,
            views(args@) == toks.skip(2).take(k - 2),
        decreases spans@.len() - k,
    {
        let (x, y) = spans[k];
        let arg = substring(s, x, y);
        assert(arg@ == toks[k as int]);
        let ghost before = views(args@);
        args.push(arg);
        assert(views(args@) =~= before.push(arg@));
        assert(toks.skip(2).take(k - 1) =~= toks.skip(2).take(k - 2).push(toks[k as int]));
        k = k + 1;
    }
    assert(views(args@) =~= toks.skip(2));
    match check_args(verb, &args) {
        Some(e) => LineResult::Fail(e),
        None => LineResult::Cmd(Command { verb, selector: sel, args }),
    }
}

/// Parses a response of the Saga server into commands.
///
/// Each line is trimmed; blank lines and lines starting with `#` are skipped;
/// a line `NONE` (in any ASCII case) means that the response holds no window
/// command, and the result is empty; every other line must be a command, and
/// the first line that is not fails the whole response.
pub fn parse(input: &str) -> (r: Result<Vec<Command>, ParseError>)
    ensures
        parse_result_view(r) == parse_spec(input@),
{
    let v = chars_of(input);
    let ls = line_spans(&v);
    let ghost all = spans_text(v@, ls@);
    let mut commands: Vec<Command> = Vec::new();
    let mut j: usize = 0;
    assert(all.skip(0) =~= all);
    assert(command_views(commands@) =~= Seq::<CommandView>::empty());
    while j < ls.len()
        invariant
            j <= ls@.len(),
            v@ == input@,
            spans_within(ls@, 0, v@.len() as int),
            all == spans_text(v@, ls@),
            parse_spec(input@) == parse_from(all.skip(j as int), command_views(commands@)),
        decreases ls@.len() - j,
    {
        let (a, b) = ls[j];
        assert(all.skip(j as int)[0] == v@.subrange(a as int, b as int));
        assert(all.skip(j as int).drop_first() =~= all.skip(j + 1));
        match parse_line(input, &v, a, b) {
            LineResult::Skip => {},
            LineResult::Stop => {
                let none: Vec<Command> = Vec::new();
                assert(command_views(none@) =~= Seq::<CommandView>::empty());
                return Ok(none);
            },
            LineResult::Fail(e) => {
                return Err(e);
            },
            LineResult::Cmd(c) => {
                let ghost before = command_views(commands@);
                commands.push(c);
                assert(command_views(commands@) =~= before.push(c@));
            },
        }
        j = j + 1;
    }
    Ok(commands)
}

/// The selector of the other kind with the same value.
pub fn swap_selector(sel: &Selector) -> (r: Selector)
    ensures
        r@ == swapped(sel@),
{
    match sel {
        Selector::Title(v) => Selector::Class(v.clone()),
        Selector::Class(v) => Selector::Title(v.clone()),
    }
}

/// The short direction that `movewindow` takes for an uppercased direction.
pub fn short_direction_of(u: &str) -> (r: &'static str)
    ensures
        r@ == short_direction(u@),
{
    if str_equal(u, "LEFT") {
        "l"
    } else if str_equal(u, "RIGHT") {
        "r"
    } else if str_equal(u, "UP") {
        "u"
    } else if str_equal(u, "DOWN") {
        "d"
    } else {
        "l"
    }
}

impl Command {
    /// A command with the same verb, selector and arguments.
    pub fn duplicate(&self) -> (r: Command)
        ensures
            r@ == self@,
    {
        let selector = match &self.selector {
            Selector::Title(t) => Selector::Title(t.clone()),
            Selector::Class(c) => Selector::Class(c.clone()),
        };
        let mut args: Vec<String> = Vec::new();
        let mut i: usize = 0;
        while i < self.args.len()
            invariant
                i <= self.args@.len(),
                views(args@) == views(self.args@).take(i as int),
            decreases self.args@.len() - i,
        {
            let a = self.args[i].clone();
            let ghost before = views(args@);
            args.push(a);
            assert(views(args@) =~= before.push(a@));
            assert(views(self.args@).take(i + 1) =~= views(self.args@).take(i as int).push(a@));
            i = i + 1;
        }
        assert(views(self.args@).take(self.args@.len() as int) =~= views(self.args@));
        Command { verb: self.verb, selector, args }
    }

    /// The Hyprland dispatch that carries out the command.
    pub fn to_hyprctl(&self) -> (r: String)
        ensures
            r@ == hyprctl_spec(self@, self.selector@),
    {
        self.to_hyprctl_with_selector(&self.selector)
    }

    /// The dispatch aimed at the window by the other kind of selector with
    /// the same value (a title taken as a class, or the reverse).
    pub fn to_hyprctl_fallback(&self) -> (r: Option<String>)
        ensures
            r is Some,
            r.unwrap()@ == hyprctl_spec(self@, swapped(self.selector@)),
    {
        let alt = swap_selector(&self.selector);
        Some(self.to_hyprctl_with_selector(&alt))
    }

    fn to_hyprctl_with_selector(&self, selector: &Selector) -> (r: String)
        ensures
            r@ == hyprctl_spec(self@, selector@),
    {
        let sel = match selector {
            Selector::Title(t) => String::from_str("title:").concat(t.as_str()),
            Selector::Class(c) => String::from_str("class:").concat(c.as_str()),
        };
        match self.verb {
            Verb::Focus => String::from_str("dispatch focuswindow ").concat(sel.as_str()),
            Verb::Move => {
                let direction = if self.args.len() > 0 {
                    self.args[0].as_str()
                } else {
                    ""
                };
                let up = to_uppercase(direction);
                let short = short_direction_of(up.as_str());
                String::from_str("dispatch focuswindow ").concat(sel.as_str()).concat(
                    " ; dispatch movewindow ",
                ).concat(short)
            },
            Verb::Resize => {
                let width = if self.args.len() > 0 {
                    self.args[0].as_str()
                } else {
                    "50"
                };
                let height = if self.args.len() > 1 {
                    self.args[1].as_str()
                } else {
                    "50"
                };
                String::from_str("dispatch focuswindow ").concat(sel.as_str()).concat(
                    " ; dispatch resizeactive ",
                ).concat(width).concat("% ").concat(height).concat("%")
            },
            Verb::Close => String::from_str("dispatch closewindow ").concat(sel.as_str()),
            Verb::Fullscreen => String::from_str("dispatch focuswindow ").concat(
                sel.as_str(),
            ).concat(" ; dispatch fullscreen 1"),
            Verb::Swap => {
                let second = if self.args.len() > 0 {
                    self.args[0].as_str()
                } else {
                    ""
                };
                String::from_str("dispatch focuswindow ").concat(sel.as_str()).concat(
                    " ; dispatch swapwindow ",
                ).concat(second)
            },
        }
    }
}

} // verus!
