//! The generator: from the items of a crate and its dependencies to a header.

use vstd::prelude::*;
use crate::builder::{opt_string_view, BuilderView, config_of, lemma_rename_reaches_config};
use crate::config::{
    TerraffiConfig, assoc, name_set, struct_name_of, struct_bare_name_of, type_name_of, bare_type_name_of,
};
use crate::case::case_converted;
use crate::error::TerraffiError;
use crate::header::{
    header_written, write_header, comment_text, guard_text, std_text, includes_text, export_text, macros_text,
    preamble, functions_block,
};
use crate::items::CItem;
use crate::names::{
    register_names, add_builtins, first_registration, or_else, is_builtin, is_string_buffer_item,
};
use crate::scan::{scan_items, scan_input, scan_error, scanned};
use crate::selection::{
    select, shadow_flags, not_shadowed, real_enum_names, close_references, seed_refs,
    is_reference_closure, relevance_flags, relevant, dedup_flags, representative, retain_flagged,
    chosen_items,
};
use crate::syntax::RustItem;
use crate::text::{owned, push_char, chars_of, string_of};
use crate::topo::{sort_items_in_reference_order, in_reference_order, functions_of};
use crate::validate::{
    UnresolvedType, UnresolvedTypesError, UnrepresentableTypesError, uses_view, reports_view,
    unresolved_of, unrepresentable_of, find_unresolved, find_unrepresentable,
};

verus! {

/// What `Path::file_stem` makes of a path, under the path syntax of the
/// platform the library is built for: its final component without the
/// extension, or nothing where there is no final component.
pub uninterp spec fn file_stem(path: Seq<char>) -> Option<Seq<char>>;

/// What `str::to_uppercase` makes of `s`: each character replaced by its
/// Unicode uppercase mapping.
pub uninterp spec fn upper_text(s: Seq<char>) -> Seq<char>;

/// `Path::file_stem`, read back as text. Its result is named [`file_stem`]
/// of the argument; how the final component is found is not restated here,
/// and a component that is not valid Unicode has its invalid sequences
/// replaced, as `to_string_lossy` does.
#[verifier::external_body]
fn file_stem_of(path: &str) -> (r: Option<String>)
    ensures
        opt_string_view(r) == file_stem(path@),
{
    std::path::Path::new(path).file_stem().map(|s| s.to_string_lossy().into_owned())
}

/// `str::to_uppercase`. Its result is named [`upper_text`] of the argument;
/// the Unicode case mappings it applies are not restated here.
#[verifier::external_body]
fn to_uppercase(s: &str) -> (r: String)
    ensures
        r@ == upper_text(s@),
{
    s.to_uppercase()
}

/// `s` with every `.` replaced by `_`.
pub open spec fn dots_to_underscores(s: Seq<char>) -> Seq<char> {
    s.map_values(|c: char| if c == '.' { '_' } else { c })
}

/// The include guard: the configured one, else the crate directory's name
/// with dots made underscores, upper-cased, followed by `_H`.
pub open spec fn guard_for(configured: Option<Seq<char>>, crate_dir: Seq<char>) -> Seq<char> {
    match configured {
        Some(g) => g,
        None => upper_text(
            dots_to_underscores(
                match file_stem(crate_dir) {
                    Some(s) => s,
                    None => Seq::empty(),
                },
            ),
        ) + "_H"@,
    }
}

fn replace_dots(s: &str) -> (r: String)
    ensures
        r@ == dots_to_underscores(s@),
{
    let cs = chars_of(s);
    let mut out = String::new();
    let mut i: usize = 0;
    while i < cs.len()
        invariant
            i <= cs@.len(),
            cs@ == s@,
            out@ =~= dots_to_underscores(s@.subrange(0, i as int)),
        decreases cs.len() - i,
    {
        let c = cs[i];
        push_char(&mut out, if c == '.' { '_' } else { c });
        i = i + 1;
        assert(out@ =~= dots_to_underscores(s@.subrange(0, i as int)));
    }
    assert(s@.subrange(0, s@.len() as int) =~= s@);
    out
}

/// Turns the items of a crate into a C header.
pub struct TerraffiGenerator {
    pub config: TerraffiConfig,
    pub crate_dir: String,
    /// The include guard the header is written with.
    pub header_guard: String,
    /// The types the last generation found referenced.
    pub referenced_types: Vec<String>,
    /// The unresolved references the last generation reported.
    pub unresolved: Vec<UnresolvedType>,
}

impl TerraffiGenerator {
    /// A generator with `config` for the crate in `crate_dir` (see [`guard_for`]).
    pub fn new(config: TerraffiConfig, crate_dir: &str) -> (r: Self)
        ensures
            r.config == config,
            r.crate_dir@ == crate_dir@,
            r.header_guard@ == guard_for(opt_string_view(config.header_guard), crate_dir@),
            r.referenced_types@.len() == 0,
            r.unresolved@.len() == 0,
    {
        let header_guard = match &config.header_guard {
            Some(g) => g.clone(),
            None => {
                let stem = match file_stem_of(crate_dir) {
                    Some(s) => s,
                    None => String::new(),
                };
                let mut g = to_uppercase(replace_dots(stem.as_str()).as_str());
                g.append("_H");
                g
            },
        };
        let r = TerraffiGenerator {
            config,
            crate_dir: owned(crate_dir),
            header_guard,
            referenced_types: Vec::new(),
            unresolved: Vec::new(),
        };
        r
    }

    /// The unresolved types found by the last call to `generate` when
    /// unresolved types are allowed.
    pub fn unresolved_types(&self) -> (r: &[UnresolvedType])
        ensures
            uses_view(r@) == uses_view(self.unresolved@),
    {
        self.unresolved.as_slice()
    }
}

/// The scanned items without the tag enums that a written enum shadows.
pub open spec fn unshadowed(s: Seq<CItem>) -> Seq<CItem> {
    select(s, Seq::new(s.len(), |i: int| not_shadowed(s[i], real_enum_names(s))))
}

/// Whether `s4` is `s3` with the builtin declaration of `CStringBuffer`
/// added where it is referenced and not declared.
pub open spec fn builtins_added(s3: Seq<CItem>, referenced: Set<Seq<char>>, s4: Seq<CItem>) -> bool {
    if is_builtin(referenced, s3, "CStringBuffer"@) {
        s4.len() == s3.len() + 1 && s4.drop_last() == s3 && is_string_buffer_item(s4.last())
    } else {
        s4 == s3
    }
}

/// Whether `c` is `c0` with the names of the types `s3` declares, then of
/// the builtin types, entered in the name maps where they had no entry.
pub open spec fn names_registered(c0: &TerraffiConfig, s3: Seq<CItem>, referenced: Set<Seq<char>>, c: &TerraffiConfig) -> bool {
    &&& *c == (TerraffiConfig { type_name_map: c.type_name_map, type_name_bare_map: c.type_name_bare_map, ..*c0 })
    &&& forall|k: Seq<char>|
        #[trigger] assoc(c.type_name_map@, k) == or_else(
            assoc(c0.type_name_map@, k),
            or_else(
                first_registration(s3, c0, k, false),
                if is_builtin(referenced, s3, k) {
                    Some(struct_name_of(c0, k))
                } else {
                    None
                },
            ),
        )
    &&& forall|k: Seq<char>|
        #[trigger] assoc(c.type_name_bare_map@, k) == or_else(
            assoc(c0.type_name_bare_map@, k),
            or_else(
                first_registration(s3, c0, k, true),
                if is_builtin(referenced, s3, k) {
                    Some(struct_bare_name_of(c0, k))
                } else {
                    None
                },
            ),
        )
}

/// What generation ends in once the items are chosen, named and ordered as
/// `s5`: an error for each use of a type C cannot express there; else an
/// error for the unresolved types, unless they are allowed, in which case
/// they are kept; else the header, written with the names entered.
pub open spec fn outcome(
    g0: &TerraffiGenerator,
    s3: Seq<CItem>,
    referenced: Set<Seq<char>>,
    s5: Seq<CItem>,
    g1: &TerraffiGenerator,
    r: Result<String, TerraffiError>,
) -> bool {
    let reports = unrepresentable_of(s5);
    let unresolved = unresolved_of(s5, name_set(g0.config.assumed_declared@));
    if reports.len() > 0 {
        r matches Err(TerraffiError::UnrepresentableTypes(e)) && reports_view(e.unrepresentable@) == reports
    } else if unresolved.len() > 0 && !g0.config.is_allow_unresolved_types {
        r matches Err(TerraffiError::UnresolvedTypes(e)) && uses_view(e.unresolved@) == unresolved
    } else {
        &&& uses_view(g1.unresolved@) == unresolved
        &&& r is Ok
        &&& exists|c: TerraffiConfig|
            names_registered(&g0.config, s3, referenced, &c) && header_written(
                c,
                g0.header_guard@,
                s5,
                g1.config,
                #[trigger] r->Ok_0@,
            )
    }
}

/// Whether generation from the scanned items `s` ends in `r`: the exported
/// items, the types they reference and so on (see [`is_reference_closure`]),
/// with the referenced types remembered; one declaration of each name;
/// builtins added; then ordered (see [`in_reference_order`]) and checked
/// (see [`outcome`]).
pub open spec fn generated(g0: &TerraffiGenerator, s: Seq<CItem>, g1: &TerraffiGenerator, r: Result<String, TerraffiError>) -> bool {
    let s1 = unshadowed(s);
    let referenced = name_set(g1.referenced_types@);
    let s3 = chosen_items(s1, &g0.config, referenced);
    &&& is_reference_closure(s1, name_set(g0.referenced_types@).union(seed_refs(s1, &g0.config)), referenced)
    &&& exists|s4: Seq<CItem>, s5: Seq<CItem>|
        builtins_added(s3, referenced, s4) && #[trigger] in_reference_order(s4, s5) && outcome(
            g0,
            s3,
            referenced,
            s5,
            g1,
            r,
        )
}

/// A renamed type is spelled as given, whatever the conventions: once the
/// header's names are registered, a type the configuration maps to `n` is
/// named `n`, with and without its suffix, and no registration overrides it.
pub proof fn lemma_renamed_type_spelled_verbatim(
    c0: &TerraffiConfig,
    s3: Seq<CItem>,
    referenced: Set<Seq<char>>,
    c: &TerraffiConfig,
    k: Seq<char>,
    n: Seq<char>,
)
    requires
        names_registered(c0, s3, referenced, c),
        assoc(c0.type_name_map@, k) == Some(n),
        assoc(c0.type_name_bare_map@, k) == Some(n),
    ensures
        type_name_of(c, k) == n,
        bare_type_name_of(c, k) == n,
{
    assert(assoc(c.type_name_map@, k) == or_else(assoc(c0.type_name_map@, k), or_else(
        first_registration(s3, c0, k, false),
        if is_builtin(referenced, s3, k) { Some(struct_name_of(c0, k)) } else { None },
    )));
    assert(assoc(c.type_name_bare_map@, k) == or_else(assoc(c0.type_name_bare_map@, k), or_else(
        first_registration(s3, c0, k, true),
        if is_builtin(referenced, s3, k) { Some(struct_bare_name_of(c0, k)) } else { None },
    )));
}

/// How a type is named once the header's names are registered: a rename
/// the configuration holds, verbatim; else the name the first declaration of
/// the type in the header registers (prefix, name and suffix of its kind,
/// case-converted; see [`first_registration`]); else, for a builtin type the
/// header adds, its struct name; else the raw name in the type case.
pub proof fn lemma_type_name_after_registration(
    c0: &TerraffiConfig,
    s3: Seq<CItem>,
    referenced: Set<Seq<char>>,
    c: &TerraffiConfig,
    raw: Seq<char>,
)
    requires
        names_registered(c0, s3, referenced, c),
    ensures
        type_name_of(c, raw) == match or_else(
            assoc(c0.type_name_map@, raw),
            or_else(
                first_registration(s3, c0, raw, false),
                if is_builtin(referenced, s3, raw) { Some(struct_name_of(c0, raw)) } else { None },
            ),
        ) {
            Some(n) => n,
            None => case_converted(raw, c0.type_case),
        },
{
    assert(assoc(c.type_name_map@, raw) == or_else(assoc(c0.type_name_map@, raw), or_else(
        first_registration(s3, c0, raw, false),
        if is_builtin(referenced, s3, raw) { Some(struct_name_of(c0, raw)) } else { None },
    )));
}

/// What a generated header opens with: the configured comment, the include
/// guard (the configured one, whatever the crate directory; see
/// [`guard_for`]), the three standard includes exactly when they are wanted,
/// and the additional includes; and that it closes the guard at its end.
pub proof fn lemma_header_frame(g0: &TerraffiGenerator, s: Seq<CItem>, g1: &TerraffiGenerator, r: Result<String, TerraffiError>)
    requires
        generated(g0, s, g1, r),
        r is Ok,
    ensures
        ({
            let h = r->Ok_0@;
            let open = comment_text(g0.config.header_comment) + guard_text(g0.header_guard@) + std_text(
                g0.config.is_add_std_includes,
            ) + includes_text(g0.config.additional_includes@);
            &&& open.len() + "\n#endif\n"@.len() <= h.len()
            &&& h.subrange(0, open.len() as int) == open
            &&& h.subrange(h.len() - "\n#endif\n"@.len(), h.len() as int) == "\n#endif\n"@
        }),
{
    let h = r->Ok_0@;
    let s1 = unshadowed(s);
    let referenced = name_set(g1.referenced_types@);
    let s3 = chosen_items(s1, &g0.config, referenced);
    let (s4, s5) = choose|s4: Seq<CItem>, s5: Seq<CItem>|
        builtins_added(s3, referenced, s4) && #[trigger] in_reference_order(s4, s5) && outcome(g0, s3, referenced, s5, g1, r);
    let c = choose|c: TerraffiConfig|
        names_registered(&g0.config, s3, referenced, &c) && header_written(c, g0.header_guard@, s5, g1.config, #[trigger] r->Ok_0@);
    let open = comment_text(g0.config.header_comment) + guard_text(g0.header_guard@) + std_text(
        g0.config.is_add_std_includes,
    ) + includes_text(g0.config.additional_includes@);
    let pre = preamble(&c, g0.header_guard@);
    let post = functions_block(functions_of(s5), &g1.config) + "\n#endif\n"@;
    assert(pre == open + export_text(g0.config.export_macro) + macros_text(g0.config.additional_macro_definitions@));
    assert(h.subrange(0, open.len() as int) == pre.subrange(0, open.len() as int));
    assert(pre.subrange(0, open.len() as int) =~= open);
    let e = "\n#endif\n"@;
    assert(h.subrange(h.len() - e.len(), h.len() as int) =~= post.subrange(post.len() - e.len(), post.len() as int));
    assert(post.subrange(post.len() - e.len(), post.len() as int) =~= e);
}

/// What a builder's header settings give: generating with a configuration
/// built from `b` (see [`config_of`]) for the crate in `crate_dir`, a header
/// that comes back opens with the configured comment, then the include guard
/// (the one `header_guard` set, whatever the directory; else derived from the
/// directory, see [`guard_for`]), then the three standard includes exactly
/// when `add_std_includes` is on, then the additional includes; and it ends
/// by closing the guard.
pub proof fn lemma_builder_header(
    b: BuilderView,
    crate_dir: Seq<char>,
    g0: &TerraffiGenerator,
    s: Seq<CItem>,
    g1: &TerraffiGenerator,
    r: Result<String, TerraffiError>,
)
    requires
        config_of(&g0.config, b),
        g0.header_guard@ == guard_for(opt_string_view(g0.config.header_guard), crate_dir),
        generated(g0, s, g1, r),
        r is Ok,
    ensures
        ({
            let h = r->Ok_0@;
            let guard = match b.header_guard {
                Some(g) => g,
                None => guard_for(None, crate_dir),
            };
            let open = comment_text(g0.config.header_comment) + guard_text(guard) + std_text(b.is_add_std_includes)
                + includes_text(g0.config.additional_includes@);
            &&& opt_string_view(g0.config.header_comment) == b.header_comment
            &&& open.len() + "\n#endif\n"@.len() <= h.len()
            &&& h.subrange(0, open.len() as int) == open
            &&& h.subrange(h.len() - "\n#endif\n"@.len(), h.len() as int) == "\n#endif\n"@
        }),
{
    lemma_header_frame(g0, s, g1, r);
}

/// What a builder's `rename_type(k, n)` gives: generating with a
/// configuration built from a builder whose last rename of `k` is to `n`, a
/// header that comes back was written under names that spell `k` as `n`,
/// with and without suffix.
pub proof fn lemma_builder_rename(
    b: BuilderView,
    g0: &TerraffiGenerator,
    s: Seq<CItem>,
    g1: &TerraffiGenerator,
    r: Result<String, TerraffiError>,
    k: Seq<char>,
    n: Seq<char>,
)
    requires
        config_of(&g0.config, b),
        b.type_name_map.len() > 0,
        b.type_name_map[0] == (k, n),
        generated(g0, s, g1, r),
        r is Ok,
    ensures
        exists|c: TerraffiConfig, s5: Seq<CItem>|
            #[trigger] header_written(c, g0.header_guard@, s5, g1.config, r->Ok_0@) && type_name_of(&c, k) == n
                && bare_type_name_of(&c, k) == n,
{
    lemma_rename_reaches_config(&g0.config, b, k, n);
    let s1 = unshadowed(s);
    let referenced = name_set(g1.referenced_types@);
    let s3 = chosen_items(s1, &g0.config, referenced);
    let (s4, s5) = choose|s4: Seq<CItem>, s5: Seq<CItem>|
        builtins_added(s3, referenced, s4) && #[trigger] in_reference_order(s4, s5) && outcome(g0, s3, referenced, s5, g1, r);
    let c = choose|c: TerraffiConfig|
        names_registered(&g0.config, s3, referenced, &c) && header_written(c, g0.header_guard@, s5, g1.config, #[trigger] r->Ok_0@);
    lemma_renamed_type_spelled_verbatim(&g0.config, s3, referenced, &c, k, n);
    assert(header_written(c, g0.header_guard@, s5, g1.config, r->Ok_0@) && type_name_of(&c, k) == n
        && bare_type_name_of(&c, k) == n);
}

/// Enters the names of the types `items` declare, then adds the builtin
/// types `referenced` names that no item declares (see [`names_registered`]
/// and [`builtins_added`]).
fn enter_names(config: &mut TerraffiConfig, items: &mut Vec<CItem>, referenced: &Vec<String>)
    ensures
        names_registered(&*old(config), old(items)@, name_set(referenced@), &*final(config)),
        builtins_added(old(items)@, name_set(referenced@), final(items)@),
{
    let ghost c0 = *config;
    let ghost s3 = items@;
    let mut full: Vec<(String, String)> = Vec::new();
    let mut bare: Vec<(String, String)> = Vec::new();
    std::mem::swap(&mut full, &mut config.type_name_map);
    std::mem::swap(&mut bare, &mut config.type_name_bare_map);
    let ghost c_swapped = *config;
    register_names(items, config, &mut full, &mut bare);
    add_builtins(items, referenced, config, &mut full, &mut bare);
    std::mem::swap(&mut full, &mut config.type_name_map);
    std::mem::swap(&mut bare, &mut config.type_name_bare_map);
    proof {
        let c = *config;
        assert(c == (TerraffiConfig { type_name_map: c.type_name_map, type_name_bare_map: c.type_name_bare_map, ..c0 }));
        assert forall|k: Seq<char>|
            #[trigger] assoc(c.type_name_map@, k) == or_else(
                assoc(c0.type_name_map@, k),
                or_else(
                    first_registration(s3, &c0, k, false),
                    if is_builtin(name_set(referenced@), s3, k) {
                        Some(struct_name_of(&c0, k))
                    } else {
                        None
                    },
                ),
            ) by {
            crate::names::lemma_registration_format(s3, &c_swapped, &c0, k, false);
        }
        assert forall|k: Seq<char>|
            #[trigger] assoc(c.type_name_bare_map@, k) == or_else(
                assoc(c0.type_name_bare_map@, k),
                or_else(
                    first_registration(s3, &c0, k, true),
                    if is_builtin(name_set(referenced@), s3, k) {
                        Some(struct_bare_name_of(&c0, k))
                    } else {
                        None
                    },
                ),
            ) by {
            crate::names::lemma_registration_format(s3, &c_swapped, &c0, k, true);
        }
    }
}

impl TerraffiGenerator {
    /// Generates the header from the items of the dependency crates and of
    /// the crate itself, each crate's items in source order with `mod`
    /// declarations already followed. An item that cannot be converted
    /// fails generation (see [`scan_error`]); otherwise see [`generated`].
    pub fn generate_from(&mut self, deps: &Vec<Vec<RustItem>>, root: &Vec<RustItem>) -> (r: Result<String, TerraffiError>)
        requires
            2 * scan_input(deps@, root@).len() < usize::MAX,
        ensures
            final(self).header_guard == old(self).header_guard,
            final(self).crate_dir == old(self).crate_dir,
            match scan_error(scan_input(deps@, root@)) {
                Some(m) => r matches Err(TerraffiError::UnsupportedItem(e)) && e@ == m,
                None => exists|s: Seq<CItem>|
                    #[trigger] scanned(scan_input(deps@, root@), &old(self).config, s) && generated(
                        &*old(self),
                        s,
                        &*final(self),
                        r,
                    ),
            },
    {
        let ghost g0 = *self;
        let items = match scan_items(deps, root, &self.config) {
            Ok(v) => v,
            Err(m) => {
                return Err(TerraffiError::UnsupportedItem(m));
            },
        };
        let ghost s = items@;
        let flags = shadow_flags(&items);
        let items = retain_flagged(items, &flags);
        proof {
            assert(flags@ =~= Seq::new(s.len(), |i: int| not_shadowed(s[i], real_enum_names(s))));
        }
        let ghost s1 = items@;
        close_references(&items, &self.config, &mut self.referenced_types);
        let flags = relevance_flags(&items, &self.config, &self.referenced_types);
        let items = retain_flagged(items, &flags);
        let ghost referenced = name_set(self.referenced_types@);
        proof {
            assert(flags@ =~= Seq::new(s1.len(), |i: int| relevant(s1[i], &g0.config, referenced)));
        }
        let ghost s2 = items@;
        let flags = dedup_flags(&items);
        let mut items = retain_flagged(items, &flags);
        proof {
            assert(flags@ =~= Seq::new(s2.len(), |i: int| representative(s2, i)));
        }
        let ghost s3 = items@;
        enter_names(&mut self.config, &mut items, &self.referenced_types);
        let ghost c_mid = self.config;
        let ghost s4 = items@;
        let mut items = items;
        sort_items_in_reference_order(&mut items);
        let ghost s5 = items@;
        let reports = find_unrepresentable(&items);
        if reports.len() > 0 {
            let r = Err(TerraffiError::UnrepresentableTypes(UnrepresentableTypesError { unrepresentable: reports }));
            proof {
                assert(outcome(&g0, s3, referenced, s5, &*self, r));
                assert(generated(&g0, s, &*self, r));
            }
            return r;
        }
        let unresolved = find_unresolved(&items, &self.config.assumed_declared);
        if unresolved.len() > 0 && !self.config.is_allow_unresolved_types {
            let r = Err(TerraffiError::UnresolvedTypes(UnresolvedTypesError { unresolved }));
            proof {
                assert(outcome(&g0, s3, referenced, s5, &*self, r));
                assert(generated(&g0, s, &*self, r));
            }
            return r;
        }
        self.unresolved = unresolved;
        let header = write_header(&mut self.config, self.header_guard.as_str(), &items);
        let r = Ok(string_of(header.as_slice()));
        proof {
            assert(names_registered(&g0.config, s3, referenced, &c_mid));
            assert(outcome(&g0, s3, referenced, s5, &*self, r));
            assert(generated(&g0, s, &*self, r));
        }
        r
    }
}

} // verus!
