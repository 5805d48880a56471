//! The user-visible configuration of the formatter.

use vstd::prelude::*;

verus! {

/// Formatting options.  The `breaks_before_*` counts give the number of
/// blank lines inserted before a declaration of the respective kind when
/// the previous sibling is not a comment or a preprocessor directive; the
/// `brace_wrapping_before_*` flags choose between an opening brace on its
/// own line (`true`) and one attached after a single space (`false`).
#[derive(Clone, Copy)]
pub struct Settings {
    pub breaks_before_function_decl: u32,
    pub breaks_before_function_def: u32,
    pub breaks_before_enum: u32,
    pub breaks_before_enum_struct: u32,
    pub breaks_before_methodmap: u32,
    pub brace_wrapping_before_function: bool,
    pub brace_wrapping_before_loop: bool,
    pub brace_wrapping_before_condition: bool,
    pub brace_wrapping_before_enum_struct: bool,
    pub brace_wrapping_before_enum: bool,
    pub brace_wrapping_before_typeset: bool,
    pub brace_wrapping_before_funcenum: bool,
    pub brace_wrapping_before_methodmap: bool,
    pub brace_wrapping_before_methodmap_property: bool,
}

impl Default for Settings {
    /// The canonical style: two blank lines before declarations and every
    /// opening brace on its own line.
    fn default() -> (s: Settings)
        ensures
            s.breaks_before_function_decl == 2,
            s.breaks_before_function_def == 2,
            s.breaks_before_enum == 2,
            s.breaks_before_enum_struct == 2,
            s.breaks_before_methodmap == 2,
            s.brace_wrapping_before_function,
            s.brace_wrapping_before_loop,
            s.brace_wrapping_before_condition,
            s.brace_wrapping_before_enum_struct,
            s.brace_wrapping_before_enum,
            s.brace_wrapping_before_typeset,
            s.brace_wrapping_before_funcenum,
            s.brace_wrapping_before_methodmap,
            s.brace_wrapping_before_methodmap_property,
    {
        Settings {
            breaks_before_function_decl: 2,
            breaks_before_function_def: 2,
            breaks_before_enum: 2,
            breaks_before_enum_struct: 2,
            breaks_before_methodmap: 2,
            brace_wrapping_before_function: true,
            brace_wrapping_before_loop: true,
            brace_wrapping_before_condition: true,
            brace_wrapping_before_enum_struct: true,
            brace_wrapping_before_enum: true,
            brace_wrapping_before_typeset: true,
            brace_wrapping_before_funcenum: true,
            brace_wrapping_before_methodmap: true,
            brace_wrapping_before_methodmap_property: true,
        }
    }
}

/// The command-line surface: one field per option of [`Settings`] plus the
/// path of the file to format.  Argument parsing itself happens outside the
/// library; this struct carries the parsed values.
pub struct Args {
    pub file: String,
    pub breaks_before_function_decl: u32,
    pub breaks_before_function_def: u32,
    pub breaks_before_enum: u32,
    pub breaks_before_enum_struct: u32,
    pub breaks_before_methodmap: u32,
    pub brace_wrapping_before_function: bool,
    pub brace_wrapping_before_loop: bool,
    pub brace_wrapping_before_condition: bool,
    pub brace_wrapping_before_enum_struct: bool,
    pub brace_wrapping_before_enum: bool,
    pub brace_wrapping_before_typeset: bool,
    pub brace_wrapping_before_funcenum: bool,
    pub brace_wrapping_before_methodmap: bool,
    pub brace_wrapping_before_methodmap_property: bool,
}

/// Builds the settings value that one format call will use from parsed
/// command-line arguments, copying every option across unchanged.
pub fn build_settings_from_args(args: &Args) -> (s: Settings)
    ensures
        s.breaks_before_function_decl == args.breaks_before_function_decl,
        s.breaks_before_function_def == args.breaks_before_function_def,
        s.breaks_before_enum == args.breaks_before_enum,
        s.breaks_before_enum_struct == args.breaks_before_enum_struct,
        s.breaks_before_methodmap == args.breaks_before_methodmap,
        s.brace_wrapping_before_function == args.brace_wrapping_before_function,
        s.brace_wrapping_before_loop == args.brace_wrapping_before_loop,
        s.brace_wrapping_before_condition == args.brace_wrapping_before_condition,
        s.brace_wrapping_before_enum_struct == args.brace_wrapping_before_enum_struct,
        s.brace_wrapping_before_enum == args.brace_wrapping_before_enum,
        s.brace_wrapping_before_typeset == args.brace_wrapping_before_typeset,
        s.brace_wrapping_before_funcenum == args.brace_wrapping_before_funcenum,
        s.brace_wrapping_before_methodmap == args.brace_wrapping_before_methodmap,
        s.brace_wrapping_before_methodmap_property == args.brace_wrapping_before_methodmap_property,
{
    Settings {
        breaks_before_function_decl: args.breaks_before_function_decl,
        breaks_before_function_def: args.breaks_before_function_def,
        breaks_before_enum: args.breaks_before_enum,
        breaks_before_enum_struct: args.breaks_before_enum_struct,
        breaks_before_methodmap: args.breaks_before_methodmap,
        brace_wrapping_before_function: args.brace_wrapping_before_function,
        brace_wrapping_before_loop: args.brace_wrapping_before_loop,
        brace_wrapping_before_condition: args.brace_wrapping_before_condition,
        brace_wrapping_before_enum_struct: args.brace_wrapping_before_enum_struct,
        brace_wrapping_before_enum: args.brace_wrapping_before_enum,
        brace_wrapping_before_typeset: args.brace_wrapping_before_typeset,
        brace_wrapping_before_funcenum: args.brace_wrapping_before_funcenum,
        brace_wrapping_before_methodmap: args.brace_wrapping_before_methodmap,
        brace_wrapping_before_methodmap_property: args.brace_wrapping_before_methodmap_property,
    }
}

} // verus!
