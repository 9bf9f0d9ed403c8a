//! Build configuration: the base directory and the four directories
//! derived from it by fixed suffixes.

use vstd::prelude::*;
use vstd::string::StringExecFns;

verus! {

/// The suffix appended to the base path for the template directory.
pub open spec fn templates_suffix() -> Seq<char> {
    seq!['/', 't', 'e', 'm', 'p', 'l', 'a', 't', 'e', 's', '/']
}

/// The suffix appended to the base path for the content directory.
pub open spec fn src_suffix() -> Seq<char> {
    seq!['/', 's', 'r', 'c']
}

/// The suffix appended to the base path for the static-assets directory.
pub open spec fn static_suffix() -> Seq<char> {
    seq!['/', 's', 't', 'a', 't', 'i', 'c']
}

/// The suffix appended to the base path for the output directory.
pub open spec fn build_suffix() -> Seq<char> {
    seq!['/', 'b', 'u', 'i', 'l', 'd']
}

/// The directories a build works over, all derived from one base path,
/// and the two watch-mode toggles.
pub struct SaaruArguments {
    pub base_dir: String,
    pub template_dir: String,
    pub source_dir: String,
    pub static_dir: String,
    pub build_dir: String,
    pub live_reload: bool,
    pub live_rerender: bool,
}

impl SaaruArguments {
    /// Derive the four working directories from a base path by fixed
    /// suffixes: `templates/`, `src`, `static` and `build`.
    pub fn new(base_dir: String, live_reload: bool, live_rerender: bool) -> (args:
        SaaruArguments)
        ensures
            args.base_dir@ == base_dir@,
            args.template_dir@ == base_dir@ + templates_suffix(),
            args.source_dir@ == base_dir@ + src_suffix(),
            args.static_dir@ == base_dir@ + static_suffix(),
            args.build_dir@ == base_dir@ + build_suffix(),
            args.live_reload == live_reload,
            args.live_rerender == live_rerender,
    {
        let template_dir = base_dir.clone().concat("/templates/");
        let source_dir = base_dir.clone().concat("/src");
        let static_dir = base_dir.clone().concat("/static");
        let build_dir = base_dir.clone().concat("/build");
        proof {
            reveal_strlit("/templates/");
            reveal_strlit("/src");
            reveal_strlit("/static");
            reveal_strlit("/build");
            assert(("/templates/")@ =~= templates_suffix());
            assert(("/src")@ =~= src_suffix());
            assert(("/static")@ =~= static_suffix());
            assert(("/build")@ =~= build_suffix());
        }
        SaaruArguments {
            base_dir,
            template_dir,
            source_dir,
            static_dir,
            build_dir,
            live_reload,
            live_rerender,
        }
    }
}

} // verus!
