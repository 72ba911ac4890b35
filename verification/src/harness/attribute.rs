//! The arguments of the attribute that marks a simulator test.

use vstd::prelude::*;
use vstd::string::StringExecFns;

verus! {

/// The name of the attribute.
pub open spec fn macro_name() -> Seq<char> {
    "test"@
}

/// A literal.
pub enum Lit {
    /// A string literal, by its value.
    Str(String),
    /// Any other.
    Other,
}

/// An argument of the attribute.
pub enum MacroArg {
    /// `name = literal`. The name is missing if it is not a plain identifier.
    NameValue(Option<String>, Lit),
    /// `name`. It is missing if it is not a plain identifier.
    Path(Option<String>),
    /// Anything else.
    Other,
}

/// What is known of an argument.
pub enum ArgView {
    /// `name = literal`, the literal as far as it is a string.
    NameValue(Option<Seq<char>>, Option<Seq<char>>),
    /// `name`.
    Path(Option<Seq<char>>),
    /// Anything else.
    Other,
}

/// The text of a string that may be missing.
pub open spec fn text_of(s: Option<String>) -> Option<Seq<char>> {
    match s {
        Some(s) => Some(s@),
        None => None,
    }
}

impl View for MacroArg {
    type V = ArgView;

    open spec fn view(&self) -> ArgView {
        match *self {
            MacroArg::NameValue(name, lit) => ArgView::NameValue(
                text_of(name),
                match lit {
                    Lit::Str(value) => Some(value@),
                    Lit::Other => None,
                },
            ),
            MacroArg::Path(name) => ArgView::Path(text_of(name)),
            MacroArg::Other => ArgView::Other,
        }
    }
}

/// What is wrong with a test or its attribute.
#[derive(Debug)]
pub enum MacroError {
    /// The function is not `async`.
    MissingAsync,
    /// The name of an argument is not a plain identifier.
    MissingIdent,
    /// `name = ..` is not known.
    UnknownNameValue(String),
    /// `config` was not given a string.
    ExpectedString,
    /// `config` was not given an expression: this is what was said about it.
    InvalidExpr(String),
    /// `crate` was given twice.
    CrateSetTwice,
    /// `crate` was not given an identifier, but this.
    NotAnIdent(String),
    /// `crate` was not given a string.
    CrateNotString,
    /// The flavor is set otherwise: to this.
    SetFlavor(String),
    /// The argument needs a value.
    RequiresArgument(String),
    /// `name` is not known.
    UnknownPath(String),
    /// The argument has an unknown form.
    UnknownForm,
}

/// What is known of an error.
#[verifier::ext_equal]
pub enum ErrorView {
    /// The function is not `async`.
    MissingAsync,
    /// The name of an argument is not a plain identifier.
    MissingIdent,
    /// `name = ..` is not known.
    UnknownNameValue(Seq<char>),
    /// `config` was not given a string.
    ExpectedString,
    /// `config` was not given an expression.
    InvalidExpr(Seq<char>),
    /// `crate` was given twice.
    CrateSetTwice,
    /// `crate` was not given an identifier, but this.
    NotAnIdent(Seq<char>),
    /// `crate` was not given a string.
    CrateNotString,
    /// The flavor is set otherwise: to this.
    SetFlavor(Seq<char>),
    /// The argument needs a value.
    RequiresArgument(Seq<char>),
    /// `name` is not known.
    UnknownPath(Seq<char>),
    /// The argument has an unknown form.
    UnknownForm,
}

impl View for MacroError {
    type V = ErrorView;

    open spec fn view(&self) -> ErrorView {
        match *self {
            MacroError::MissingAsync => ErrorView::MissingAsync,
            MacroError::MissingIdent => ErrorView::MissingIdent,
            MacroError::UnknownNameValue(name) => ErrorView::UnknownNameValue(name@),
            MacroError::ExpectedString => ErrorView::ExpectedString,
            MacroError::InvalidExpr(text) => ErrorView::InvalidExpr(text@),
            MacroError::CrateSetTwice => ErrorView::CrateSetTwice,
            MacroError::NotAnIdent(value) => ErrorView::NotAnIdent(value@),
            MacroError::CrateNotString => ErrorView::CrateNotString,
            MacroError::SetFlavor(flavor) => ErrorView::SetFlavor(flavor@),
            MacroError::RequiresArgument(name) => ErrorView::RequiresArgument(name@),
            MacroError::UnknownPath(name) => ErrorView::UnknownPath(name@),
            MacroError::UnknownForm => ErrorView::UnknownForm,
        }
    }
}

impl ErrorView {
    /// What the user is told.
    pub open spec fn message(self) -> Seq<char> {
        match self {
            ErrorView::MissingAsync => "the `async` keyword is missing from the function declaration"@,
            ErrorView::MissingIdent => "Must have specified ident"@,
            ErrorView::UnknownNameValue(name) => "Unknown attribute "@ + name
                + " is specified; expected one of: `flavor`, `worker_threads`, `start_paused`, `crate`"@,
            ErrorView::ExpectedString => "expected string literal"@,
            ErrorView::InvalidExpr(text) => text,
            ErrorView::CrateSetTwice => "`crate` set multiple times."@,
            ErrorView::NotAnIdent(value) => "Failed to parse value of `crate` as ident: \""@ + value
                + "\""@,
            ErrorView::CrateNotString => "Failed to parse value of `crate` as ident."@,
            ErrorView::SetFlavor(flavor) => "Set the runtime flavor with #["@ + macro_name()
                + "(flavor = \""@ + flavor + "\")]."@,
            ErrorView::RequiresArgument(name) => "The `"@ + name
                + "` attribute requires an argument."@,
            ErrorView::UnknownPath(name) => "Unknown attribute "@ + name
                + " is specified; expected one of: `flavor`, `worker_threads`, `start_paused`, `crate`, `check_determinism`"@,
            ErrorView::UnknownForm => "Unknown attribute inside the macro"@,
        }
    }
}

/// Three texts, one after the other.
fn join(a: &str, b: &str, c: &str) -> (r: String)
    ensures
        r@ == a@ + b@ + c@,
{
    let mut text: String = a.to_owned();
    text.append(b);
    text.append(c);
    text
}

impl MacroError {
    /// Returns what the user is told.
    pub fn message(&self) -> (r: String)
        ensures
            r@ == self@.message(),
    {
        match self {
            MacroError::MissingAsync => "the `async` keyword is missing from the function declaration".to_owned(),
            MacroError::MissingIdent => "Must have specified ident".to_owned(),
            MacroError::UnknownNameValue(name) => join(
                "Unknown attribute ",
                name.as_str(),
                " is specified; expected one of: `flavor`, `worker_threads`, `start_paused`, `crate`",
            ),
            MacroError::ExpectedString => "expected string literal".to_owned(),
            MacroError::InvalidExpr(text) => text.clone(),
            MacroError::CrateSetTwice => "`crate` set multiple times.".to_owned(),
            MacroError::NotAnIdent(value) => join(
                "Failed to parse value of `crate` as ident: \"",
                value.as_str(),
                "\"",
            ),
            MacroError::CrateNotString => "Failed to parse value of `crate` as ident.".to_owned(),
            MacroError::SetFlavor(flavor) => {
                let mut text: String = join(
                    "Set the runtime flavor with #[",
                    "test",
                    "(flavor = \"",
                );
                text.append(flavor.as_str());
                text.append("\")].");
                text
            },
            MacroError::RequiresArgument(name) => join(
                "The `",
                name.as_str(),
                "` attribute requires an argument.",
            ),
            MacroError::UnknownPath(name) => join(
                "Unknown attribute ",
                name.as_str(),
                " is specified; expected one of: `flavor`, `worker_threads`, `start_paused`, `crate`, `check_determinism`",
            ),
            MacroError::UnknownForm => "Unknown attribute inside the macro".to_owned(),
        }
    }
}

/// What `str::to_lowercase` returns.
pub uninterp spec fn lower_case(text: Seq<char>) -> Seq<char>;

/// A letter of ASCII in lower case, a digit or an underscore.
pub open spec fn is_plain(c: char) -> bool {
    'a' <= c <= 'z' || '0' <= c <= '9' || c == '_'
}

/// The text is of plain characters.
pub open spec fn is_plain_text(text: Seq<char>) -> bool {
    forall|i: int| 0 <= i < text.len() ==> is_plain(#[trigger] text[i])
}

/// `str::to_lowercase`: the text in lower case, by the rules of Unicode. One that has no capitals
/// is left as it is; that is said of texts of plain ASCII characters.
#[verifier::external_body]
fn to_lower_case(text: &str) -> (r: String)
    ensures
        r@ == lower_case(text@),
        is_plain_text(text@) ==> r@ == text@,
{
    text.to_lowercase()
}

/// A path of the `syn` crate.
#[verifier::external_type_specification]
#[verifier::external_body]
pub struct ExPath(syn::Path);

/// `syn::parse_str` for `syn::Expr`: whether the text is an expression, and if not, what the error
/// says. Which it is is left unsaid: inside of a procedural macro the text is taken apart by the
/// compiler, and elsewhere by a crate of its own.
#[verifier::external_body]
fn parse_expr(text: &str) -> Result<(), String> {
    match syn::parse_str::<syn::Expr>(text) {
        Ok(_) => Ok(()),
        Err(err) => Err(err.to_string()),
    }
}

/// `syn::parse_str` for `syn::Path`: the path that the text is, if it is one. Which that is is left
/// unsaid, as with expressions.
#[verifier::external_body]
fn parse_path(text: &str) -> Option<syn::Path> {
    match syn::parse_str::<syn::Path>(text) {
        Ok(path) => Some(path),
        Err(_) => None,
    }
}

/// `syn::Path::get_ident`: the identifier, if the path consists of one. What a path consists of is
/// left unsaid, and so is this.
#[verifier::external_body]
fn path_ident(path: &syn::Path) -> Option<String> {
    path.get_ident().map(|ident| ident.to_string())
}

/// What a parser says of the value of an argument.
pub struct Said {
    /// What is wrong with it as an expression, if anything.
    pub expr_error: Option<String>,
    /// The identifier that it is, if it is one.
    pub ident: Option<String>,
}

/// What is known of what a parser says.
pub struct SaidView {
    /// What is wrong with the value as an expression, if anything.
    pub expr_error: Option<Seq<char>>,
    /// The identifier that the value is, if it is one.
    pub ident: Option<Seq<char>>,
}

impl View for Said {
    type V = SaidView;

    open spec fn view(&self) -> SaidView {
        SaidView { expr_error: text_of(self.expr_error), ident: text_of(self.ident) }
    }
}

/// What a parser is asked of an argument.
pub enum Question {
    /// Whether this is an expression.
    Expr(String),
    /// Which identifier this is.
    Ident(String),
    /// Nothing.
    Nothing,
}

/// What is known of a question.
#[verifier::ext_equal]
pub enum QuestionView {
    /// Whether this is an expression.
    Expr(Seq<char>),
    /// Which identifier this is.
    Ident(Seq<char>),
    /// Nothing.
    Nothing,
}

impl View for Question {
    type V = QuestionView;

    open spec fn view(&self) -> QuestionView {
        match *self {
            Question::Expr(text) => QuestionView::Expr(text@),
            Question::Ident(text) => QuestionView::Ident(text@),
            Question::Nothing => QuestionView::Nothing,
        }
    }
}

/// The parser has given `answer` when it was asked for `text` as an expression.
spec fn parsed_as_expr(text: &str, answer: Result<(), String>) -> bool {
    call_ensures(parse_expr, (text,), answer)
}

/// The parser has given `answer` when it was asked for `text` as a path.
spec fn parsed_as_path(text: &str, answer: Option<syn::Path>) -> bool {
    call_ensures(parse_path, (text,), answer)
}

/// `ident` was given as the identifier that `path` consists of.
spec fn is_ident_of(path: syn::Path, ident: Option<String>) -> bool {
    call_ensures(path_ident, (&path,), ident)
}

impl QuestionView {
    /// `said` is what the parser answers to the question, and nothing else: of an expression what
    /// is wrong with that very text, of an identifier which one that very text is.
    pub closed spec fn is_answered(self, said: SaidView) -> bool {
        match self {
            QuestionView::Expr(text) => said.ident is None && exists|
                asked: &str,
                answer: Result<(), String>,
            |
                asked@ == text && #[trigger] parsed_as_expr(asked, answer) && said.expr_error == (
                match answer {
                    Ok(_) => None,
                    Err(wrong) => Some(wrong@),
                }),
            QuestionView::Ident(text) => said.expr_error is None && exists|
                asked: &str,
                answer: Option<syn::Path>,
            |
                asked@ == text && #[trigger] parsed_as_path(asked, answer) && match answer {
                    Some(path) => exists|ident: Option<String>|
                        #[trigger] is_ident_of(path, ident) && said.ident == text_of(ident),
                    None => said.ident is None,
                },
            QuestionView::Nothing => said.expr_error is None && said.ident is None,
        }
    }
}

impl ArgView {
    /// The name of the argument stays as it is in lower case if it is of plain characters.
    pub open spec fn is_named_plainly(self) -> bool {
        match self {
            ArgView::NameValue(Some(name), _) | ArgView::Path(Some(name)) => is_plain_text(name)
                ==> lower_case(name) == name,
            _ => true,
        }
    }

    /// The name, in lower case, of a setting that is accepted and has no effect.
    pub open spec fn ignored(self) -> Option<Seq<char>> {
        match self {
            ArgView::NameValue(Some(name), _) if is_ignored(lower_case(name)) => Some(
                lower_case(name),
            ),
            _ => None,
        }
    }

    /// What a parser is asked of the argument: of a `config` that is a string whether it is an
    /// expression, of a `crate` that is a string which identifier it is.
    pub open spec fn question(self) -> QuestionView {
        match self {
            ArgView::NameValue(Some(name), Some(text)) => if lower_case(name) == "config"@ {
                QuestionView::Expr(text)
            } else if lower_case(name) == "crate"@ {
                QuestionView::Ident(text)
            } else {
                QuestionView::Nothing
            },
            _ => QuestionView::Nothing,
        }
    }
}

/// Settings of this name are accepted and have no effect; the name is in lower case.
pub open spec fn is_ignored(name: Seq<char>) -> bool {
    name == "worker_threads"@ || name == "flavor"@ || name == "start_paused"@
}

impl MacroArg {
    /// Returns the name, in lower case, of a setting that is accepted and has no effect.
    pub fn ignored(&self) -> (r: Option<String>)
        ensures
            text_of(r) == self@.ignored(),
    {
        match self {
            MacroArg::NameValue(Some(name), _) => {
                let name: String = to_lower_case(name.as_str());
                if is_ignored_name(name.as_str()) {
                    Some(name)
                } else {
                    None
                }
            },
            _ => None,
        }
    }

    /// Returns what a parser is to be asked of the argument.
    pub fn question(&self) -> (r: Question)
        ensures
            r@ == self@.question(),
    {
        match self {
            MacroArg::NameValue(Some(name), Lit::Str(text)) => {
                let name: String = to_lower_case(name.as_str());
                if same(name.as_str(), "config") {
                    Question::Expr(text.clone())
                } else if same(name.as_str(), "crate") {
                    Question::Ident(text.clone())
                } else {
                    Question::Nothing
                }
            },
            _ => Question::Nothing,
        }
    }
}

/// Asks a parser.
fn ask(question: Question) -> (r: Said)
    ensures
        question@.is_answered(r@),
{
    match question {
        Question::Expr(text) => {
            let asked: &str = text.as_str();
            let answer: Result<(), String> = parse_expr(asked);
            assert(parsed_as_expr(asked, answer));
            match answer {
                Ok(_) => Said { expr_error: None, ident: None },
                Err(wrong) => Said { expr_error: Some(wrong), ident: None },
            }
        },
        Question::Ident(text) => {
            let asked: &str = text.as_str();
            let answer: Option<syn::Path> = parse_path(asked);
            assert(parsed_as_path(asked, answer));
            match answer {
                Some(path) => {
                    let ident: Option<String> = path_ident(&path);
                    assert(is_ident_of(path, ident));
                    Said { expr_error: None, ident }
                },
                None => Said { expr_error: None, ident: None },
            }
        },
        Question::Nothing => Said { expr_error: None, ident: None },
    }
}

/// What the attribute of a test asks for.
#[derive(Debug)]
pub struct TestAttr {
    /// The crate that provides the simulator.
    pub crate_name: Option<String>,
    /// The expression that gives the configuration.
    pub network_config_expr: Option<String>,
    /// The test runs on a node of its own.
    pub run_in_client_node: bool,
    /// The test is checked for determinism.
    pub check_determinism: bool,
}

/// What is known of a `TestAttr`.
#[verifier::ext_equal]
pub struct AttrView {
    /// The crate that provides the simulator.
    pub crate_name: Option<Seq<char>>,
    /// The expression that gives the configuration.
    pub network_config_expr: Option<Seq<char>>,
    /// The test runs on a node of its own.
    pub run_in_client_node: bool,
    /// The test is checked for determinism.
    pub check_determinism: bool,
}

impl View for TestAttr {
    type V = AttrView;

    open spec fn view(&self) -> AttrView {
        AttrView {
            crate_name: text_of(self.crate_name),
            network_config_expr: text_of(self.network_config_expr),
            run_in_client_node: self.run_in_client_node,
            check_determinism: self.check_determinism,
        }
    }
}

impl AttrView {
    /// What an attribute without arguments asks for.
    pub open spec fn fresh() -> AttrView {
        AttrView {
            crate_name: None,
            network_config_expr: None,
            run_in_client_node: true,
            check_determinism: false,
        }
    }

    /// What is asked for once `name = value` has been read; `name` is in lower case, and `expr`
    /// and `ident` are what the value is wrong or right for.
    pub open spec fn with_name_value(
        self,
        name: Seq<char>,
        value: Option<Seq<char>>,
        expr: Option<Seq<char>>,
        ident: Option<Seq<char>>,
    ) -> Result<AttrView, ErrorView> {
        if is_ignored(name) {
            Ok(self)
        } else if name == "no_client_node"@ {
            Ok(AttrView { run_in_client_node: false, ..self })
        } else if name == "config"@ {
            match (value, expr) {
                (Some(_), Some(said)) => Err(ErrorView::InvalidExpr(said)),
                (Some(text), None) => Ok(AttrView { network_config_expr: Some(text), ..self }),
                (None, _) => Err(ErrorView::ExpectedString),
            }
        } else if name == "crate"@ {
            if self.crate_name is Some {
                Err(ErrorView::CrateSetTwice)
            } else {
                match (value, ident) {
                    (Some(_), Some(ident)) => Ok(AttrView { crate_name: Some(ident), ..self }),
                    (Some(text), None) => Err(ErrorView::NotAnIdent(text)),
                    (None, _) => Err(ErrorView::CrateNotString),
                }
            }
        } else {
            Err(ErrorView::UnknownNameValue(name))
        }
    }

    /// What is asked for once `name` has been read; it is in lower case.
    pub open spec fn with_path(self, name: Seq<char>) -> Result<AttrView, ErrorView> {
        if name == "check_determinism"@ {
            Ok(AttrView { check_determinism: true, ..self })
        } else if name == "threaded_scheduler"@ || name == "multi_thread"@ {
            Err(ErrorView::SetFlavor("multi_thread"@))
        } else if name == "basic_scheduler"@ || name == "current_thread"@ || name
            == "single_threaded"@ {
            Err(ErrorView::SetFlavor("current_thread"@))
        } else if name == "flavor"@ || name == "worker_threads"@ || name == "start_paused"@ {
            Err(ErrorView::RequiresArgument(name))
        } else {
            Err(ErrorView::UnknownPath(name))
        }
    }

    /// What is asked for once `arg` has been read, of whose value a parser says `said`.
    pub open spec fn with_arg(self, arg: ArgView, said: SaidView) -> Result<AttrView, ErrorView> {
        match arg {
            ArgView::NameValue(Some(name), value) => self.with_name_value(
                lower_case(name),
                value,
                said.expr_error,
                said.ident,
            ),
            ArgView::Path(Some(name)) => self.with_path(lower_case(name)),
            ArgView::NameValue(None, _) | ArgView::Path(None) => Err(ErrorView::MissingIdent),
            ArgView::Other => Err(ErrorView::UnknownForm),
        }
    }
}

/// What an attribute with the arguments `args` asks for, given what a parser says of the value of
/// each: they are read one after the other, and the first that is wrong decides.
pub open spec fn attribute_of(args: Seq<ArgView>, said: Seq<SaidView>) -> Result<
    AttrView,
    ErrorView,
>
    decreases args.len(),
{
    if args.len() == 0 {
        Ok(AttrView::fresh())
    } else {
        match attribute_of(args.drop_last(), said) {
            Ok(attr) => attr.with_arg(args.last(), said[args.len() - 1]),
            Err(err) => Err(err),
        }
    }
}

/// What is known of the arguments.
pub open spec fn args_view(args: Seq<MacroArg>) -> Seq<ArgView> {
    args.map_values(|arg: MacroArg| arg@)
}

/// The result `r` is `expected`.
pub open spec fn agrees(r: Result<TestAttr, MacroError>, expected: Result<AttrView, ErrorView>) -> bool {
    match (r, expected) {
        (Ok(attr), Ok(view)) => attr@ == view,
        (Err(err), Err(view)) => err@ == view,
        _ => false,
    }
}

impl TestAttr {
    /// What an attribute without arguments asks for.
    pub fn new() -> (r: TestAttr)
        ensures
            r@ == AttrView::fresh(),
    {
        TestAttr {
            crate_name: None,
            network_config_expr: None,
            run_in_client_node: true,
            check_determinism: false,
        }
    }

    /// Takes `name = lit` over, given what its value is wrong (`expr`) or right (`ident`) for.
    pub fn set_name_value(
        self,
        name: String,
        lit: &Lit,
        expr: Option<String>,
        ident: Option<String>,
    ) -> (r: Result<TestAttr, MacroError>)
        ensures
            agrees(
                r,
                self@.with_name_value(
                    name@,
                    match *lit {
                        Lit::Str(value) => Some(value@),
                        Lit::Other => None,
                    },
                    text_of(expr),
                    text_of(ident),
                ),
            ),
    {
        let mut attr: TestAttr = self;
        let key: &str = name.as_str();
        if is_ignored_name(key) {
            return Ok(attr);
        }
        if same(key, "no_client_node") {
            attr.run_in_client_node = false;
            return Ok(attr);
        }
        if same(key, "config") {
            return match lit {
                Lit::Str(value) => match expr {
                    Some(said) => Err(MacroError::InvalidExpr(said)),
                    None => {
                        attr.network_config_expr = Some(value.clone());
                        Ok(attr)
                    },
                },
                Lit::Other => Err(MacroError::ExpectedString),
            };
        }
        if same(key, "crate") {
            if attr.crate_name.is_some() {
                return Err(MacroError::CrateSetTwice);
            }
            return match lit {
                Lit::Str(value) => match ident {
                    Some(ident) => {
                        attr.crate_name = Some(ident);
                        Ok(attr)
                    },
                    None => Err(MacroError::NotAnIdent(value.clone())),
                },
                Lit::Other => Err(MacroError::CrateNotString),
            };
        }
        Err(MacroError::UnknownNameValue(name))
    }

    /// Takes an argument over, given what a parser says of its value.
    pub fn set_arg(self, arg: &MacroArg, said: Said) -> (r: Result<TestAttr, MacroError>)
        ensures
            agrees(r, self@.with_arg(arg@, said@)),
            arg@.is_named_plainly(),
    {
        match arg {
            MacroArg::NameValue(Some(name), lit) => self.set_name_value(
                to_lower_case(name.as_str()),
                lit,
                said.expr_error,
                said.ident,
            ),
            MacroArg::Path(Some(name)) => self.set_path(to_lower_case(name.as_str())),
            MacroArg::NameValue(None, _) | MacroArg::Path(None) => Err(MacroError::MissingIdent),
            MacroArg::Other => Err(MacroError::UnknownForm),
        }
    }

    /// Takes `name` over.
    pub fn set_path(self, name: String) -> (r: Result<TestAttr, MacroError>)
        ensures
            agrees(r, self@.with_path(name@)),
    {
        let mut attr: TestAttr = self;
        let key: &str = name.as_str();
        if same(key, "check_determinism") {
            attr.check_determinism = true;
            return Ok(attr);
        }
        if same(key, "threaded_scheduler") || same(key, "multi_thread") {
            return Err(MacroError::SetFlavor("multi_thread".to_owned()));
        }
        if same(key, "basic_scheduler") || same(key, "current_thread") || same(
            key,
            "single_threaded",
        ) {
            return Err(MacroError::SetFlavor("current_thread".to_owned()));
        }
        if same(key, "flavor") || same(key, "worker_threads") || same(key, "start_paused") {
            return Err(MacroError::RequiresArgument(name));
        }
        Err(MacroError::UnknownPath(name))
    }
}

/// What was said of each argument answers what was to be asked of it, and the names of the
/// arguments that are of plain characters are taken as they are.
pub open spec fn are_answered(args: Seq<ArgView>, said: Seq<SaidView>) -> bool {
    &&& said.len() == args.len()
    &&& forall|i: int| 0 <= i < args.len() ==> args[i].question().is_answered(#[trigger] said[i])
    &&& forall|i: int| 0 <= i < args.len() ==> (#[trigger] args[i]).is_named_plainly()
}

/// The result `r` is what an attribute with the arguments `args` asks for, given what a parser says
/// of their values. Once an argument is wrong, the others are not looked at.
pub open spec fn is_attribute_of(r: Result<AttrView, ErrorView>, args: Seq<ArgView>) -> bool {
    exists|said: Seq<SaidView>|
        said.len() <= args.len() && #[trigger] are_answered(args.take(said.len() as int), said) && r
            == attribute_of(args.take(said.len() as int), said) && (said.len() == args.len()
            || r is Err)
}

/// What is known of a result.
pub open spec fn result_view(r: Result<TestAttr, MacroError>) -> Result<AttrView, ErrorView> {
    match r {
        Ok(attr) => Ok(attr@),
        Err(err) => Err(err@),
    }
}

/// Reads the arguments of the attribute. What is said of the value of a `config` or a `crate` is up
/// to a parser; the rest is not.
pub fn build_test_config(args: &Vec<MacroArg>) -> (r: Result<TestAttr, MacroError>)
    ensures
        is_attribute_of(result_view(r), args_view(args@)),
{
    let ghost views = args_view(args@);
    let ghost mut said: Seq<SaidView> = Seq::empty();
    let mut attr: TestAttr = TestAttr::new();
    let mut i: usize = 0;
    assert(views.take(0) =~= Seq::empty());
    while i < args.len()
        invariant
            i <= args@.len(),
            views == args_view(args@),
            are_answered(views.take(i as int), said),
            attribute_of(views.take(i as int), said) == Ok::<AttrView, ErrorView>(attr@),
        decreases args@.len() - i,
    {
        let answer: Said = ask(args[i].question());
        let ghost sofar = said;
        proof {
            said = said.push(answer@);
            assert(views.take(i + 1).drop_last() =~= views.take(i as int));
            assert(views.take(i + 1).last() == args@[i as int]@);
            lemma_said_of_the_rest(views.take(i as int), sofar, said);
        }
        let step: Result<TestAttr, MacroError> = attr.set_arg(&args[i], answer);
        proof {
            assert forall|j: int| 0 <= j <= i implies views.take(i + 1)[j].question().is_answered(
                #[trigger] said[j],
            ) by {
                if j < i {
                    assert(views.take(i as int)[j].question().is_answered(sofar[j]));
                }
            }
            assert forall|j: int| 0 <= j <= i implies (#[trigger] views.take(
                i + 1,
            )[j]).is_named_plainly() by {
                if j < i {
                    assert(views.take(i as int)[j].is_named_plainly());
                }
            }
            assert(are_answered(views.take(i + 1), said));
        }
        match step {
            Ok(next) => {
                attr = next;
            },
            Err(err) => {
                assert(are_answered(views.take(said.len() as int), said));
                return Err(err);
            },
        }
        i = i + 1;
    }
    proof {
        assert(views.take(i as int) =~= views);
        assert(are_answered(views.take(said.len() as int), said));
    }
    Ok(attr)
}

/// Only what is said of the given arguments matters.
proof fn lemma_said_of_the_rest(args: Seq<ArgView>, first: Seq<SaidView>, second: Seq<SaidView>)
    requires
        args.len() <= first.len(),
        args.len() <= second.len(),
        forall|j: int| 0 <= j < args.len() ==> #[trigger] first[j] == second[j],
    ensures
        attribute_of(args, first) == attribute_of(args, second),
    decreases args.len(),
{
    if args.len() > 0 {
        lemma_said_of_the_rest(args.drop_last(), first, second);
        assert(first[args.len() - 1] == second[args.len() - 1]);
    }
}

/// What is wrong with the first arguments is wrong with all of them, whatever a parser says of the
/// others.
pub proof fn law_first_wrong_argument_decides(args: Seq<ArgView>, said: Seq<SaidView>, n: int)
    requires
        0 <= n <= args.len(),
        attribute_of(args.take(n), said) is Err,
    ensures
        attribute_of(args, said) == attribute_of(args.take(n), said),
    decreases args.len() - n,
{
    if n < args.len() {
        assert(args.take(n + 1).drop_last() =~= args.take(n));
        law_first_wrong_argument_decides(args, said, n + 1);
    } else {
        assert(args.take(n) =~= args);
    }
}

/// What a parser says matters only for a `config` and a `crate` that are given as strings. Without
/// these the arguments alone decide what the attribute asks for.
pub proof fn law_only_config_and_crate_are_asked_of(
    args: Seq<ArgView>,
    first: Seq<SaidView>,
    second: Seq<SaidView>,
)
    requires
        forall|i: int| 0 <= i < args.len() ==> (#[trigger] args[i]).question() is Nothing,
    ensures
        attribute_of(args, first) == attribute_of(args, second),
    decreases args.len(),
{
    if args.len() > 0 {
        let front = args.drop_last();
        assert forall|i: int| 0 <= i < front.len() implies (
        #[trigger] front[i]).question() is Nothing by {
            assert(front[i] == args[i]);
        }
        law_only_config_and_crate_are_asked_of(front, first, second);
        assert(args[args.len() - 1].question() is Nothing);
    }
}

/// What a test stands for.
#[derive(Debug)]
pub struct TestSpec {
    /// The crate that provides the simulator.
    pub crate_name: String,
    /// The expression that gives the configuration.
    pub config_expr: String,
    /// The test runs on a node of its own.
    pub run_in_client_node: bool,
    /// The test is checked for determinism.
    pub check_determinism: bool,
}

impl TestSpec {
    /// The test is one with an attribute that asks for `attr`: unless something else was given,
    /// the crate is `msim`, and the configuration is the default of that crate.
    pub open spec fn is_for(self, attr: AttrView) -> bool {
        &&& self.crate_name@ == (match attr.crate_name {
            Some(name) => name,
            None => "msim"@,
        })
        &&& self.config_expr@ == (match attr.network_config_expr {
            Some(expr) => expr,
            None => self.crate_name@ + "::SimConfig::default()"@,
        })
        &&& self.run_in_client_node == attr.run_in_client_node
        &&& self.check_determinism == attr.check_determinism
    }
}

impl TestAttr {
    /// What a test with this attribute stands for.
    pub fn into_test(self) -> (r: TestSpec)
        ensures
            r.is_for(self@),
    {
        let crate_name: String = match self.crate_name {
            Some(name) => name,
            None => "msim".to_owned(),
        };
        let config_expr: String = match self.network_config_expr {
            Some(expr) => expr,
            None => {
                let mut expr: String = crate_name.clone();
                expr.append("::SimConfig::default()");
                expr
            },
        };
        TestSpec {
            crate_name,
            config_expr,
            run_in_client_node: self.run_in_client_node,
            check_determinism: self.check_determinism,
        }
    }
}

/// The test is one with the arguments `args`, given something that a parser can say of their values.
pub open spec fn is_test_of(test: TestSpec, args: Seq<ArgView>) -> bool {
    exists|attr: AttrView| #[trigger] test.is_for(attr) && is_attribute_of(Ok(attr), args)
}

/// Reads what a test stands for, from whether its function is `async` and the arguments of its
/// attribute.
pub fn parse_test(is_async: bool, args: &Vec<MacroArg>) -> (r: Result<TestSpec, MacroError>)
    ensures
        match r {
            Ok(test) => is_async && is_test_of(test, args_view(args@)),
            Err(err) => if is_async {
                is_attribute_of(Err(err@), args_view(args@))
            } else {
                err == MacroError::MissingAsync
            },
        },
{
    if !is_async {
        return Err(MacroError::MissingAsync);
    }
    match build_test_config(args) {
        Ok(attr) => {
            let test: TestSpec = attr.into_test();
            assert(test.is_for(attr@) && is_attribute_of(Ok(attr@), args_view(args@)));
            Ok(test)
        },
        Err(err) => Err(err),
    }
}

/// Checks that the function that is to be run is `async`.
pub fn parse_main(is_async: bool) -> (r: Result<(), MacroError>)
    ensures
        r == (if is_async {
            Ok::<(), MacroError>(())
        } else {
            Err(MacroError::MissingAsync)
        }),
{
    if is_async {
        Ok(())
    } else {
        Err(MacroError::MissingAsync)
    }
}

/// The order of arguments does not matter unless one of them is wrong or both set the same thing:
/// asking for a determinism check before or after any other argument comes to the same.
pub proof fn law_determinism_check_can_stand_anywhere(
    attr: AttrView,
    arg: ArgView,
    said: SaidView,
)
    requires
        attr.with_arg(arg, said) is Ok,
    ensures
        (AttrView { check_determinism: true, ..attr }).with_arg(arg, said) == Ok::<
            AttrView,
            ErrorView,
        >(AttrView { check_determinism: true, ..attr.with_arg(arg, said)->Ok_0 }),
{
}

/// Nothing is said that was not asked: of an expression no identifier, of an identifier nothing as
/// an expression, and where nothing was asked, nothing.
pub proof fn law_nothing_is_said_unasked(question: QuestionView, said: SaidView)
    requires
        question.is_answered(said),
    ensures
        !(question is Expr) ==> said.expr_error is None,
        !(question is Ident) ==> said.ident is None,
{
}

/// Whether settings of this name have no effect.
fn is_ignored_name(name: &str) -> (r: bool)
    ensures
        r == is_ignored(name@),
{
    same(name, "worker_threads") || same(name, "flavor") || same(name, "start_paused")
}

/// Whether two texts are the same.
fn same(a: &str, b: &str) -> (r: bool)
    ensures
        r == (a@ == b@),
{
    let (n, m): (usize, usize) = (a.unicode_len(), b.unicode_len());
    if n != m {
        return false;
    }
    let mut i: usize = 0;
    while i < n
        invariant
            i <= n,
            n == a@.len(),
            n == b@.len(),
            forall|j: int| 0 <= j < i ==> a@[j] == b@[j],
        decreases n - i,
    {
        if a.get_char(i) != b.get_char(i) {
            return false;
        }
        i = i + 1;
    }
    assert(a@ =~= b@);
    true
}

} // verus!
