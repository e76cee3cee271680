//! Options that control layout and style.

use vstd::prelude::*;
use vstd::string::*;

verus! {

/// The whole configuration for formatting.
#[derive(Clone, Copy, Debug)]
pub struct FormatOptions {
    pub layout: LayoutOptions,
    pub language: LanguageOptions,
}

/// Configuration related to layout, such as indentation or print width.
#[derive(Clone, Copy, Debug)]
pub struct LayoutOptions {
    pub print_width: usize,
    pub use_tabs: bool,
    pub indent_width: usize,
    pub line_break: LineBreak,
}

/// The line ending written at each line break.
#[derive(Clone, Copy, Debug, PartialEq, Eq, Structural)]
pub enum LineBreak {
    Lf,
    Crlf,
}

/// Where a line may break around a binary operator.
#[derive(Clone, Copy, Debug, PartialEq, Eq, Structural)]
pub enum OperatorLineBreak {
    Before,
    After,
}

/// When the last element of a bracketed list is followed by a comma.
#[derive(Clone, Copy, Debug, PartialEq, Eq, Structural)]
pub enum TrailingComma {
    Never,
    Always,
    OnlyMultiLine,
}

/// Configuration related to syntax.
///
/// Each `Option` field overrides the global field of the same suffix for one
/// construct; `None` falls back to the global value.
#[derive(Clone, Copy, Debug)]
pub struct LanguageOptions {
    pub operator_linebreak: OperatorLineBreak,
    pub trailing_comma: TrailingComma,
    pub args_trailing_comma: Option<TrailingComma>,
    pub expr_dict_trailing_comma: Option<TrailingComma>,
    pub expr_list_trailing_comma: Option<TrailingComma>,
    pub expr_tuple_trailing_comma: Option<TrailingComma>,
    pub params_trailing_comma: Option<TrailingComma>,
    pub prefer_single_line: bool,
    pub args_prefer_single_line: Option<bool>,
    pub expr_dict_prefer_single_line: Option<bool>,
    pub expr_list_prefer_single_line: Option<bool>,
    pub expr_tuple_prefer_single_line: Option<bool>,
    pub params_prefer_single_line: Option<bool>,
    pub brace_spacing: bool,
    pub bracket_spacing: bool,
    pub args_paren_spacing: bool,
    pub params_paren_spacing: bool,
    pub tuple_paren_spacing: bool,
}

impl Default for LineBreak {
    fn default() -> (r: Self)
        ensures
            r == LineBreak::Lf,
    {
        LineBreak::Lf
    }
}

impl Default for OperatorLineBreak {
    fn default() -> (r: Self)
        ensures
            r == OperatorLineBreak::After,
    {
        OperatorLineBreak::After
    }
}

impl Default for TrailingComma {
    fn default() -> (r: Self)
        ensures
            r == TrailingComma::OnlyMultiLine,
    {
        TrailingComma::OnlyMultiLine
    }
}

impl LayoutOptions {
    /// The default layout: width 80, two spaces per level, LF line endings.
    pub open spec fn spec_default() -> LayoutOptions {
        LayoutOptions {
            print_width: 80,
            use_tabs: false,
            indent_width: 2,
            line_break: LineBreak::Lf,
        }
    }
}

impl Default for LayoutOptions {
    fn default() -> (r: Self)
        ensures
            r == LayoutOptions::spec_default(),
    {
        LayoutOptions { print_width: 80, use_tabs: false, indent_width: 2, line_break: LineBreak::Lf }
    }
}

impl LanguageOptions {
    /// The default style: break after operators, trailing commas only in
    /// broken lists, no override, no spacing inside delimiters.
    pub open spec fn spec_default() -> LanguageOptions {
        LanguageOptions {
            operator_linebreak: OperatorLineBreak::After,
            trailing_comma: TrailingComma::OnlyMultiLine,
            args_trailing_comma: None,
            expr_dict_trailing_comma: None,
            expr_list_trailing_comma: None,
            expr_tuple_trailing_comma: None,
            params_trailing_comma: None,
            prefer_single_line: false,
            args_prefer_single_line: None,
            expr_dict_prefer_single_line: None,
            expr_list_prefer_single_line: None,
            expr_tuple_prefer_single_line: None,
            params_prefer_single_line: None,
            brace_spacing: false,
            bracket_spacing: false,
            args_paren_spacing: false,
            params_paren_spacing: false,
            tuple_paren_spacing: false,
        }
    }
}

impl Default for LanguageOptions {
    fn default() -> (r: Self)
        ensures
            r == LanguageOptions::spec_default(),
    {
        LanguageOptions {
            operator_linebreak: OperatorLineBreak::After,
            trailing_comma: TrailingComma::OnlyMultiLine,
            args_trailing_comma: None,
            expr_dict_trailing_comma: None,
            expr_list_trailing_comma: None,
            expr_tuple_trailing_comma: None,
            params_trailing_comma: None,
            prefer_single_line: false,
            args_prefer_single_line: None,
            expr_dict_prefer_single_line: None,
            expr_list_prefer_single_line: None,
            expr_tuple_prefer_single_line: None,
            params_prefer_single_line: None,
            brace_spacing: false,
            bracket_spacing: false,
            args_paren_spacing: false,
            params_paren_spacing: false,
            tuple_paren_spacing: false,
        }
    }
}

impl Default for FormatOptions {
    fn default() -> (r: Self)
        ensures
            r.layout == LayoutOptions::spec_default(),
            r.language == LanguageOptions::spec_default(),
    {
        FormatOptions { layout: LayoutOptions::default(), language: LanguageOptions::default() }
    }
}

/// The list constructs that share the bracketed, comma-separated layout.
#[derive(Clone, Copy, Debug, PartialEq, Eq, Structural)]
pub enum ListKind {
    Args,
    Dict,
    List,
    Tuple,
    Params,
}

impl LanguageOptions {
    /// The trailing-comma policy in force for one construct: its override
    /// where one is set, else the global policy.
    pub open spec fn trailing_comma_spec(self, list: ListKind) -> TrailingComma {
        let specific = match list {
            ListKind::Args => self.args_trailing_comma,
            ListKind::Dict => self.expr_dict_trailing_comma,
            ListKind::List => self.expr_list_trailing_comma,
            ListKind::Tuple => self.expr_tuple_trailing_comma,
            ListKind::Params => self.params_trailing_comma,
        };
        match specific {
            Some(policy) => policy,
            None => self.trailing_comma,
        }
    }

    /// Whether one construct is collapsed to a single line even where the
    /// source broke it: its override where one is set, else the global flag.
    pub open spec fn prefer_single_line_spec(self, list: ListKind) -> bool {
        let specific = match list {
            ListKind::Args => self.args_prefer_single_line,
            ListKind::Dict => self.expr_dict_prefer_single_line,
            ListKind::List => self.expr_list_prefer_single_line,
            ListKind::Tuple => self.expr_tuple_prefer_single_line,
            ListKind::Params => self.params_prefer_single_line,
        };
        match specific {
            Some(flag) => flag,
            None => self.prefer_single_line,
        }
    }

    /// Whether one construct has a space inside its delimiters.
    pub open spec fn spacing_spec(self, list: ListKind) -> bool {
        match list {
            ListKind::Args => self.args_paren_spacing,
            ListKind::Dict => self.brace_spacing,
            ListKind::List => self.bracket_spacing,
            ListKind::Tuple => self.tuple_paren_spacing,
            ListKind::Params => self.params_paren_spacing,
        }
    }

    /// Resolves the trailing-comma policy for one construct.
    pub fn resolve_trailing_comma(&self, list: ListKind) -> (policy: TrailingComma)
        ensures
            policy == self.trailing_comma_spec(list),
    {
        let specific = match list {
            ListKind::Args => self.args_trailing_comma,
            ListKind::Dict => self.expr_dict_trailing_comma,
            ListKind::List => self.expr_list_trailing_comma,
            ListKind::Tuple => self.expr_tuple_trailing_comma,
            ListKind::Params => self.params_trailing_comma,
        };
        match specific {
            Some(policy) => policy,
            None => self.trailing_comma,
        }
    }

    /// Resolves the prefer-single-line flag for one construct.
    pub fn resolve_prefer_single_line(&self, list: ListKind) -> (flag: bool)
        ensures
            flag == self.prefer_single_line_spec(list),
    {
        let specific = match list {
            ListKind::Args => self.args_prefer_single_line,
            ListKind::Dict => self.expr_dict_prefer_single_line,
            ListKind::List => self.expr_list_prefer_single_line,
            ListKind::Tuple => self.expr_tuple_prefer_single_line,
            ListKind::Params => self.params_prefer_single_line,
        };
        match specific {
            Some(flag) => flag,
            None => self.prefer_single_line,
        }
    }

    /// Resolves the delimiter spacing for one construct.
    pub fn resolve_spacing(&self, list: ListKind) -> (spacing: bool)
        ensures
            spacing == self.spacing_spec(list),
    {
        match list {
            ListKind::Args => self.args_paren_spacing,
            ListKind::Dict => self.brace_spacing,
            ListKind::List => self.bracket_spacing,
            ListKind::Tuple => self.tuple_paren_spacing,
            ListKind::Params => self.params_paren_spacing,
        }
    }
}

/// Whether `name` is `word`.
fn name_is(name: &str, word: &str) -> (r: bool)
    ensures
        r == (name@ == word@),
{
    let a = String::from_str(name);
    let b = String::from_str(word);
    a.eq(&b)
}

impl LineBreak {
    /// The line ending that a configuration names: `lf` or `crlf`.
    pub open spec fn from_name_spec(name: Seq<char>) -> Option<LineBreak> {
        if name == "lf"@ {
            Some(LineBreak::Lf)
        } else if name == "crlf"@ {
            Some(LineBreak::Crlf)
        } else {
            None
        }
    }

    /// Reads a line ending from its name in a configuration.
    pub fn from_name(name: &str) -> (r: Option<LineBreak>)
        ensures
            r == LineBreak::from_name_spec(name@),
    {
        if name_is(name, "lf") {
            Some(LineBreak::Lf)
        } else if name_is(name, "crlf") {
            Some(LineBreak::Crlf)
        } else {
            None
        }
    }
}

impl OperatorLineBreak {
    /// The position that a configuration names: `before` or `after`.
    pub open spec fn from_name_spec(name: Seq<char>) -> Option<OperatorLineBreak> {
        if name == "before"@ {
            Some(OperatorLineBreak::Before)
        } else if name == "after"@ {
            Some(OperatorLineBreak::After)
        } else {
            None
        }
    }

    /// Reads an operator position from its name in a configuration.
    pub fn from_name(name: &str) -> (r: Option<OperatorLineBreak>)
        ensures
            r == OperatorLineBreak::from_name_spec(name@),
    {
        if name_is(name, "before") {
            Some(OperatorLineBreak::Before)
        } else if name_is(name, "after") {
            Some(OperatorLineBreak::After)
        } else {
            None
        }
    }
}

impl TrailingComma {
    /// The policy that a configuration names: `never`, `always` or
    /// `only-multi-line`.
    pub open spec fn from_name_spec(name: Seq<char>) -> Option<TrailingComma> {
        if name == "never"@ {
            Some(TrailingComma::Never)
        } else if name == "always"@ {
            Some(TrailingComma::Always)
        } else if name == "only-multi-line"@ {
            Some(TrailingComma::OnlyMultiLine)
        } else {
            None
        }
    }

    /// Reads a trailing-comma policy from its name in a configuration.
    pub fn from_name(name: &str) -> (r: Option<TrailingComma>)
        ensures
            r == TrailingComma::from_name_spec(name@),
    {
        if name_is(name, "never") {
            Some(TrailingComma::Never)
        } else if name_is(name, "always") {
            Some(TrailingComma::Always)
        } else if name_is(name, "only-multi-line") {
            Some(TrailingComma::OnlyMultiLine)
        } else {
            None
        }
    }
}

} // verus!
