use vstd::prelude::*;

verus! {

/// Switches that select the dialect the lexer and parser accept.
#[derive(Debug, Clone, Copy, PartialEq, Eq, Structural)]
pub struct ParseConfig {
    pub case_sensitive: bool,
    pub allow_loop_control: bool,
    pub allow_func_return: bool,
    pub allow_undefined_vars: bool,
    pub allow_plus_on_string: bool,
    /// `=` assigns (and `==` compares) when set; otherwise `=` compares.
    pub allow_equal_assign: bool,
    /// A raw line break may stand inside a string literal when set.
    pub allow_new_line_in_string: bool,
}

impl ParseConfig {
    /// The settings of the everyday dialect.
    pub open spec fn spec_normal() -> ParseConfig {
        ParseConfig {
            case_sensitive: true,
            allow_loop_control: true,
            allow_func_return: true,
            allow_undefined_vars: false,
            allow_plus_on_string: true,
            allow_equal_assign: true,
            allow_new_line_in_string: false,
        }
    }

    /// The settings of the exam dialect.
    pub open spec fn spec_strict() -> ParseConfig {
        ParseConfig {
            case_sensitive: false,
            allow_loop_control: false,
            allow_func_return: true,
            allow_undefined_vars: false,
            allow_plus_on_string: false,
            allow_equal_assign: false,
            allow_new_line_in_string: false,
        }
    }

    /// The everyday dialect: case-sensitive names, `BREAK`/`CONTINUE`/`RETURN`, `=` assigns.
    pub fn normal() -> (c: Self)
        ensures
            c == Self::spec_normal(),
    {
        ParseConfig {
            case_sensitive: true,
            allow_loop_control: true,
            allow_func_return: true,
            allow_undefined_vars: false,
            allow_plus_on_string: true,
            allow_equal_assign: true,
            allow_new_line_in_string: false,
        }
    }

    /// The exam dialect: names folded to lower case, no loop control, only `←`/`<-` assign.
    pub fn strict() -> (c: Self)
        ensures
            c == Self::spec_strict(),
    {
        ParseConfig {
            case_sensitive: false,
            allow_loop_control: false,
            allow_func_return: true,
            allow_undefined_vars: false,
            allow_plus_on_string: false,
            allow_equal_assign: false,
            allow_new_line_in_string: false,
        }
    }
}

impl Default for ParseConfig {
    fn default() -> (c: Self)
        ensures
            c == ParseConfig::spec_normal(),
    {
        Self::normal()
    }
}

} // verus!
