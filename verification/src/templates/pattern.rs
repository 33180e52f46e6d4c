//! One-line patterns: parsed once, rendered many times with different
//! variables.
//!
//! A pattern is plain text with references to variables in it, such as
//! `{{ vars.region }}` or `{{ patterns.deployment_dirs[1] }}`. The template
//! engine knows more than that (operators, statements, comments), but it
//! aborts on some of what it accepts, so texts that hold more than text and
//! references are refused here, before the engine sees them.

use vstd::prelude::*;
use std::collections::BTreeMap;
use trimmer::{Context, Options, ParseError, Parser, RenderError, Template};
use crate::names::NameMap;

verus! {

/// `trimmer::Parser`: the template parser, carried through as it is.
#[verifier::external_type_specification]
#[verifier::external_body]
pub struct ExParser(Parser);

/// `trimmer::Template`: a parsed template, carried through as it is.
#[verifier::external_type_specification]
#[verifier::external_body]
pub struct ExTemplate(Template);

/// `trimmer::ParseError`: why a text is no template, carried through as it
/// is.
#[verifier::external_type_specification]
#[verifier::external_body]
pub struct ExParseError(ParseError);

/// `trimmer::RenderError`: why a template did not render, carried through
/// as it is.
#[verifier::external_type_specification]
#[verifier::external_body]
pub struct ExRenderError(RenderError);

/// Whether `text` is a template that parses with the one-line syntax as the
/// default.
pub uninterp spec fn is_oneline_template(text: Seq<char>) -> bool;

/// What the one-line template `text` renders to when `vars` is bound to the
/// table of user variables and, where `container` is given, `container_name`
/// and `container_version` are bound to its two parts; `None` where
/// rendering fails.
pub uninterp spec fn rendered(
    text: Seq<char>,
    vars: Map<Seq<char>, Seq<char>>,
    container: Option<(Seq<char>, Seq<char>)>,
) -> Option<Seq<char>>;

/// The container a pattern is rendered for.
#[derive(Debug)]
pub struct ContainerVar {
    pub name: String,
    pub version: String,
}

/// The text of every value of a table.
pub open spec fn table_view(table: Map<Seq<char>, String>) -> Map<Seq<char>, Seq<char>> {
    table.map_values(|s: String| s@)
}

/// The container in hand as texts.
pub open spec fn container_view(container: Option<&ContainerVar>) -> Option<(Seq<char>, Seq<char>)> {
    match container {
        Some(c) => Some((c.name@, c.version@)),
        None => None,
    }
}

/// A pattern that failed to render: the pattern as it was written and what
/// went wrong.
#[derive(Debug)]
pub struct TemplateError {
    pub pattern: String,
    pub cause: RenderError,
}

/// Where the reading of a pattern stands.
#[derive(Clone, Copy, Debug, PartialEq, Eq, Structural)]
pub enum Reading {
    /// In plain text.
    Text,
    /// In plain text, after one `{`.
    Brace,
    /// After `{{`, before the name.
    Open,
    /// In a name.
    Name,
    /// After the `.` that a name has to follow.
    Dot,
    /// After the `[` that a number has to follow.
    Bracket,
    /// In the number of an index.
    Index,
    /// After the `]` of an index.
    Indexed,
    /// In the spaces that follow the reference.
    Tail,
    /// After the first `}` of the closing `}}`.
    Closing,
    /// The text is no plain pattern, whatever follows.
    Refused,
}

/// Whether a name may begin with this character: an ASCII letter or an
/// underscore.
pub open spec fn begins_name(c: char) -> bool {
    let u = c as u32;
    (0x41 <= u <= 0x5a) || (0x61 <= u <= 0x7a) || c == '_'
}

/// Whether this character is an ASCII digit.
pub open spec fn is_digit(c: char) -> bool {
    0x30 <= c as u32 <= 0x39
}

/// How one more character moves the reading on. In text everything but
/// `#` is text, and `{{` opens a reference. A reference is a name,
/// followed by any number of `.name` and `[digits]`, with spaces allowed
/// before and after, and is closed by `}}`.
pub open spec fn read(state: Reading, c: char) -> Reading {
    match state {
        Reading::Text => if c == '#' {
            Reading::Refused
        } else if c == '{' {
            Reading::Brace
        } else {
            Reading::Text
        },
        Reading::Brace => if c == '#' {
            Reading::Refused
        } else if c == '{' {
            Reading::Open
        } else {
            Reading::Text
        },
        Reading::Open => if c == ' ' {
            Reading::Open
        } else if begins_name(c) {
            Reading::Name
        } else {
            Reading::Refused
        },
        Reading::Name => if begins_name(c) || is_digit(c) {
            Reading::Name
        } else if c == '.' {
            Reading::Dot
        } else if c == '[' {
            Reading::Bracket
        } else if c == ' ' {
            Reading::Tail
        } else if c == '}' {
            Reading::Closing
        } else {
            Reading::Refused
        },
        Reading::Dot => if begins_name(c) {
            Reading::Name
        } else {
            Reading::Refused
        },
        Reading::Bracket => if is_digit(c) {
            Reading::Index
        } else {
            Reading::Refused
        },
        Reading::Index => if is_digit(c) {
            Reading::Index
        } else if c == ']' {
            Reading::Indexed
        } else {
            Reading::Refused
        },
        Reading::Indexed => if c == '.' {
            Reading::Dot
        } else if c == '[' {
            Reading::Bracket
        } else if c == ' ' {
            Reading::Tail
        } else if c == '}' {
            Reading::Closing
        } else {
            Reading::Refused
        },
        Reading::Tail => if c == ' ' {
            Reading::Tail
        } else if c == '}' {
            Reading::Closing
        } else {
            Reading::Refused
        },
        Reading::Closing => if c == '}' {
            Reading::Text
        } else {
            Reading::Refused
        },
        Reading::Refused => Reading::Refused,
    }
}

/// Where the reading stands after a whole text.
pub open spec fn reading_after(text: Seq<char>) -> Reading
    decreases text.len(),
{
    if text.len() == 0 {
        Reading::Text
    } else {
        read(reading_after(text.drop_last()), text.last())
    }
}

/// Whether a text is plain text with references to variables in it and
/// nothing else: the reading ends in plain text.
pub open spec fn is_plain_pattern(text: Seq<char>) -> bool {
    reading_after(text) == Reading::Text || reading_after(text) == Reading::Brace
}

/// How one more character moves the reading on.
fn read_char(state: Reading, c: char) -> (r: Reading)
    ensures
        r == read(state, c),
{
    let u: u32 = c as u32;
    let letter = (0x41 <= u && u <= 0x5a) || (0x61 <= u && u <= 0x7a) || c == '_';
    let digit = 0x30 <= u && u <= 0x39;
    match state {
        Reading::Text => if c == '#' {
            Reading::Refused
        } else if c == '{' {
            Reading::Brace
        } else {
            Reading::Text
        },
        Reading::Brace => if c == '#' {
            Reading::Refused
        } else if c == '{' {
            Reading::Open
        } else {
            Reading::Text
        },
        Reading::Open => if c == ' ' {
            Reading::Open
        } else if letter {
            Reading::Name
        } else {
            Reading::Refused
        },
        Reading::Name => if letter || digit {
            Reading::Name
        } else if c == '.' {
            Reading::Dot
        } else if c == '[' {
            Reading::Bracket
        } else if c == ' ' {
            Reading::Tail
        } else if c == '}' {
            Reading::Closing
        } else {
            Reading::Refused
        },
        Reading::Dot => if letter {
            Reading::Name
        } else {
            Reading::Refused
        },
        Reading::Bracket => if digit {
            Reading::Index
        } else {
            Reading::Refused
        },
        Reading::Index => if digit {
            Reading::Index
        } else if c == ']' {
            Reading::Indexed
        } else {
            Reading::Refused
        },
        Reading::Indexed => if c == '.' {
            Reading::Dot
        } else if c == '[' {
            Reading::Bracket
        } else if c == ' ' {
            Reading::Tail
        } else if c == '}' {
            Reading::Closing
        } else {
            Reading::Refused
        },
        Reading::Tail => if c == ' ' {
            Reading::Tail
        } else if c == '}' {
            Reading::Closing
        } else {
            Reading::Refused
        },
        Reading::Closing => if c == '}' {
            Reading::Text
        } else {
            Reading::Refused
        },
        Reading::Refused => Reading::Refused,
    }
}

/// Whether `text` is plain text with references to variables in it and
/// nothing else.
pub fn is_plain(text: &str) -> (r: bool)
    ensures
        r == is_plain_pattern(text@),
{
    let mut state = Reading::Text;
    for c in it: text.chars()
        invariant
            it.seq() == text@,
            state == reading_after(text@.take(it.index() as int)),
    {
        proof {
            let next = text@.take(it.index() + 1);
            assert(next.drop_last() =~= text@.take(it.index() as int));
            assert(next.last() == c);
        }
        state = read_char(state, c);
    }
    assert(text@.take(text@.len() as int) =~= text@);
    match state {
        Reading::Text => true,
        Reading::Brace => true,
        _ => false,
    }
}

/// Why a text is no pattern.
#[derive(Debug)]
pub enum PatternError {
    /// The text holds more than plain text and references.
    NotPlain(String),
    /// The text is plain, and the parser refused it for this reason.
    Syntax { text: String, cause: ParseError },
}

impl PatternError {
    /// The text as it was written.
    pub fn text(&self) -> (r: &String)
        ensures
            r == match self {
                PatternError::NotPlain(text) => text,
                PatternError::Syntax { text, .. } => text,
            },
    {
        match self {
            PatternError::NotPlain(text) => text,
            PatternError::Syntax { text, .. } => text,
        }
    }
}

/// A parsed one-line pattern together with the text it was parsed from.
#[derive(Debug)]
pub struct Pattern {
    text: String,
    ast: Template,
}

impl View for Pattern {
    type V = Seq<char>;

    closed spec fn view(&self) -> Seq<char> {
        self.text@
    }
}

/// `trimmer::Parser::parse_with_options` with the one-line syntax as the
/// default, on a plain pattern: succeeds exactly on the texts that are such
/// templates, and the pattern keeps the text it was given.
#[verifier::external_body]
fn parse_oneline(parser: &Parser, text: &str) -> (r: Result<Pattern, ParseError>)
    requires
        is_plain_pattern(text@),
    ensures
        r is Ok <==> is_oneline_template(text@),
        r matches Ok(p) ==> p@ == text@,
{
    let ast = parser.parse_with_options(Options::new().syntax_oneline(), text)?;
    Ok(Pattern { text: text.to_string(), ast })
}

/// `trimmer::Template::render`, for a plain pattern, on a context that
/// binds `vars` and, where a container is given, `container_name` and
/// `container_version`: the outcome depends on the pattern's text and on
/// these bindings only.
#[verifier::external_body]
fn render_plain(pattern: &Pattern, vars: &NameMap<String>, container: Option<&ContainerVar>) -> (r: Result<
    String,
    RenderError,
>)
    requires
        is_plain_pattern(pattern@),
    ensures
        r matches Ok(s) ==> rendered(pattern@, table_view(vars@), container_view(container))
            == Some(s@),
        r is Err ==> rendered(pattern@, table_view(vars@), container_view(container)) is None,
{
    let table: BTreeMap<String, String> = (0..vars.len()).map(
        |i| (vars.name_at(i).clone(), vars.item_at(i).clone()),
    ).collect();
    let mut context = Context::new();
    context.set("vars", &table);
    if let Some(container) = container {
        context.set("container_name", &container.name);
        context.set("container_version", &container.version);
    }
    pattern.ast.render(&context)
}

impl Pattern {
    #[verifier::type_invariant]
    spec fn inv(&self) -> bool {
        is_plain_pattern(self.text@)
    }

    /// Parses `text` as a one-line pattern. A text that holds more than
    /// plain text and references is refused without being parsed.
    pub fn parse(parser: &Parser, text: &str) -> (r: Result<Pattern, PatternError>)
        ensures
            r is Ok <==> is_plain_pattern(text@) && is_oneline_template(text@),
            r matches Ok(p) ==> p@ == text@,
            r matches Err(PatternError::NotPlain(t)) ==> t@ == text@ && !is_plain_pattern(text@),
            r matches Err(PatternError::Syntax { text: t, .. }) ==> t@ == text@
                && is_plain_pattern(text@) && !is_oneline_template(text@),
    {
        if !is_plain(text) {
            return Err(PatternError::NotPlain(text.to_owned()));
        }
        match parse_oneline(parser, text) {
            Ok(pattern) => Ok(pattern),
            Err(cause) => Err(PatternError::Syntax { text: text.to_owned(), cause }),
        }
    }

    /// A pattern is plain text with references to variables in it.
    pub fn plain(&self)
        ensures
            is_plain_pattern(self@),
    {
        proof {
            use_type_invariant(self);
        }
    }

    /// Renders the pattern with the user's variables bound to `vars` and,
    /// where a container is given, its name and version bound to
    /// `container_name` and `container_version`. The same pattern with the
    /// same bindings always renders to the same.
    pub fn render(&self, vars: &NameMap<String>, container: Option<&ContainerVar>) -> (r: Result<
        String,
        RenderError,
    >)
        ensures
            r matches Ok(s) ==> rendered(self@, table_view(vars@), container_view(container))
                == Some(s@),
            r is Err ==> rendered(self@, table_view(vars@), container_view(container))
                is None,
    {
        proof {
            use_type_invariant(self);
        }
        render_plain(self, vars, container)
    }

    /// The pattern as it was written.
    pub fn text(&self) -> (r: &String)
        ensures
            r@ == self@,
    {
        &self.text
    }

    /// The template that the pattern's text was parsed to.
    pub closed spec fn parsed(&self) -> Template {
        self.ast
    }

    /// The parsed template, for rendering with variables of other kinds:
    /// the one that the pattern was parsed to and that it renders with.
    pub fn template(&self) -> (r: &Template)
        ensures
            *r == self.parsed(),
    {
        &self.ast
    }

    /// Renders the pattern and, on failure, says which pattern it was.
    pub fn render_or_explain(&self, vars: &NameMap<String>, container: Option<&ContainerVar>) -> (r: Result<
        String,
        TemplateError,
    >)
        ensures
            r matches Ok(s) ==> rendered(self@, table_view(vars@), container_view(container))
                == Some(s@),
            r matches Err(e) ==> e.pattern@ == self@ && rendered(
                self@,
                table_view(vars@),
                container_view(container),
            ) is None,
    {
        match self.render(vars, container) {
            Ok(s) => Ok(s),
            Err(cause) => Err(TemplateError { pattern: self.text.clone(), cause }),
        }
    }
}

/// Renders every pattern of a list, in order, stopping at the first that
/// fails.
pub fn render_all(
    patterns: &Vec<Pattern>,
    vars: &NameMap<String>,
    container: Option<&ContainerVar>,
) -> (r: Result<Vec<String>, TemplateError>)
    ensures
        r matches Ok(v) ==> {
            &&& v@.len() == patterns@.len()
            &&& forall|i: int|
                0 <= i < v@.len() ==> rendered(
                    patterns@[i]@,
                    table_view(vars@),
                    container_view(container),
                ) == Some(#[trigger] v@[i]@)
        },
        r matches Err(e) ==> exists|i: int|
            {
                &&& 0 <= i < patterns@.len()
                &&& e.pattern@ == (#[trigger] patterns@[i])@
                &&& rendered(patterns@[i]@, table_view(vars@), container_view(container))
                    is None
                &&& forall|j: int|
                    0 <= j < i ==> rendered(
                        (#[trigger] patterns@[j])@,
                        table_view(vars@),
                        container_view(container),
                    ) is Some
            },
{
    let mut out: Vec<String> = Vec::new();
    let mut i: usize = 0;
    while i < patterns.len()
        invariant
            i <= patterns@.len(),
            out@.len() == i,
            forall|j: int|
                0 <= j < i ==> rendered(
                    patterns@[j]@,
                    table_view(vars@),
                    container_view(container),
                ) == Some(#[trigger] out@[j]@),
        decreases patterns@.len() - i,
    {
        match patterns[i].render_or_explain(vars, container) {
            Ok(s) => {
                out.push(s);
            },
            Err(e) => {
                assert forall|j: int| 0 <= j < i implies rendered(
                    (#[trigger] patterns@[j])@,
                    table_view(vars@),
                    container_view(container),
                ) is Some by {
                    assert(rendered(
                        patterns@[j]@,
                        table_view(vars@),
                        container_view(container),
                    ) == Some(out@[j]@));
                }
                return Err(e);
            },
        }
        i = i + 1;
    }
    Ok(out)
}

} // verus!
