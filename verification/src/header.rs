//! The header as a whole: its preamble, its declarations, its functions.

use vstd::prelude::*;
use crate::config::{TerraffiConfig, name_set};
use crate::emit::{item_text, function_text, macro_text, same_settings, declares_type};
use crate::items::{CItem, CMacro, item_name};
use crate::text::{append_str, append_chars, chars_of, lines_of, lines_chars, views, starts_with, ends_with,
    has_prefix, has_suffix};
use crate::topo::functions_of;

verus! {

/// The lines of a header comment, each as ` * line`.
pub open spec fn comment_lines(ls: Seq<Seq<char>>) -> Seq<char>
    decreases ls.len(),
{
    if ls.len() == 0 {
        Seq::empty()
    } else {
        comment_lines(ls.drop_last()) + " * "@ + ls.last() + "\n"@
    }
}

/// The header comment, if one is configured, as a block comment.
pub open spec fn comment_text(comment: Option<String>) -> Seq<char> {
    match comment {
        Some(c) => "/*\n"@ + comment_lines(lines_of(c@)) + " */\n\n"@,
        None => Seq::empty(),
    }
}

/// An additional include as written: kept when it is already a statement,
/// else quoted where it is not quoted or bracketed, and made a statement.
pub open spec fn include_line(inc: Seq<char>) -> Seq<char> {
    if starts_with(inc, "#include "@) {
        inc + "\n"@
    } else {
        let opened = if starts_with(inc, "<"@) || starts_with(inc, "\""@) {
            inc
        } else {
            "\""@ + inc
        };
        let closed = if ends_with(opened, ">"@) || ends_with(opened, "\""@) {
            opened
        } else {
            opened + "\""@
        };
        "#include "@ + closed + "\n"@
    }
}

/// An additional include already written as a header name, in angle
/// brackets or in quotes, becomes an `#include` of exactly that name; a bare
/// file name is quoted; a full `#include` statement is kept as it is.
pub proof fn lemma_include_line_forms(h: Seq<char>)
    ensures
        include_line("<"@ + h + ">"@) == "#include <"@ + h + ">\n"@,
        include_line("\""@ + h + "\""@) == "#include \""@ + h + "\"\n"@,
        h.len() > 0 && h[0] != '<' && h[0] != '"' && h[0] != '#' && h.last() != '>' && h.last() != '"'
            ==> include_line(h) == "#include \""@ + h + "\"\n"@,
        include_line("#include "@ + h) == "#include "@ + h + "\n"@,
{
    reveal_strlit("<");
    reveal_strlit(">");
    reveal_strlit("\"");
    reveal_strlit("#include ");
    reveal_strlit("#include <");
    reveal_strlit("#include \"");
    reveal_strlit(">\n");
    reveal_strlit("\"\n");
    reveal_strlit("\n");
    let a = "<"@ + h + ">"@;
    assert(a.subrange(0, 1) =~= "<"@);
    assert(a.subrange(a.len() - 1, a.len() as int) =~= ">"@);
    if starts_with(a, "#include "@) {
        assert(a[0] == "#include "@[0]);
    }
    assert("#include "@ + a + "\n"@ =~= "#include <"@ + h + ">\n"@);
    let b = "\""@ + h + "\""@;
    assert(b.subrange(0, 1) =~= "\""@);
    assert(b.subrange(b.len() - 1, b.len() as int) =~= "\""@);
    if starts_with(b, "#include "@) {
        assert(b[0] == "#include "@[0]);
    }
    assert("#include "@ + b + "\n"@ =~= "#include \""@ + h + "\"\n"@);
    if h.len() > 0 && h[0] != '<' && h[0] != '"' && h[0] != '#' && h.last() != '>' && h.last() != '"' {
        if starts_with(h, "#include "@) {
            assert(h[0] == h.subrange(0, 9)[0]);
        }
        if starts_with(h, "<"@) {
            assert(h[0] == h.subrange(0, 1)[0]);
        }
        if starts_with(h, "\""@) {
            assert(h[0] == h.subrange(0, 1)[0]);
        }
        let o = "\""@ + h;
        assert(o.last() == h.last());
        if ends_with(o, ">"@) {
            assert(o.subrange(o.len() - 1, o.len() as int)[0] == o.last());
        }
        if ends_with(o, "\""@) {
            assert(o.subrange(o.len() - 1, o.len() as int)[0] == o.last());
        }
        assert("#include "@ + (o + "\""@) + "\n"@ =~= "#include \""@ + h + "\"\n"@);
    }
    let c = "#include "@ + h;
    assert(c.subrange(0, 9) =~= "#include "@);
}

/// The additional includes, one statement each.
pub open spec fn includes_text(incs: Seq<String>) -> Seq<char>
    decreases incs.len(),
{
    if incs.len() == 0 {
        Seq::empty()
    } else {
        includes_text(incs.drop_last()) + include_line(incs.last()@)
    }
}

/// The block that defines the export macro `m` for the platform.
pub open spec fn export_block(m: Seq<char>) -> Seq<char> {
    "\n#if defined _WIN32 || defined __CYGWIN__\n    #define "@ + m + " __declspec(dllimport)\n#elif __GNUC__ >= 4\n    #define "@
        + m + " __attribute__ ((visibility (\"default\")))\n#else\n    #define "@ + m + "\n#endif\n"@
}

/// The additional macro definitions, each after an empty line.
pub open spec fn macros_text(ms: Seq<CMacro>) -> Seq<char>
    decreases ms.len(),
{
    if ms.len() == 0 {
        Seq::empty()
    } else {
        macros_text(ms.drop_last()) + "\n"@ + macro_text(ms.last())
    }
}

/// Everything before the declarations: the comment, the include guard, the
/// standard and additional includes, the export macro block and the macro
/// definitions.
pub open spec fn preamble(cfg: &TerraffiConfig, guard: Seq<char>) -> Seq<char> {
    comment_text(cfg.header_comment) + guard_text(guard) + std_text(cfg.is_add_std_includes) + includes_text(
        cfg.additional_includes@,
    ) + export_text(cfg.export_macro) + macros_text(cfg.additional_macro_definitions@)
}

/// The opening of the include guard.
pub open spec fn guard_text(guard: Seq<char>) -> Seq<char> {
    "#ifndef "@ + guard + "\n#define "@ + guard + "\n\n"@
}

/// The standard includes, where they are wanted.
pub open spec fn std_text(wanted: bool) -> Seq<char> {
    if wanted {
        "#include <stdint.h>\n#include <stddef.h>\n#include <stdbool.h>\n"@
    } else {
        Seq::empty()
    }
}

/// The export macro block, where an export macro is configured.
pub open spec fn export_text(m: Option<String>) -> Seq<char> {
    match m {
        Some(m) => export_block(m@),
        None => Seq::empty(),
    }
}

/// The prototypes of the functions `fs`, each followed by an empty line.
pub open spec fn prototypes_text(fs: Seq<CItem>, cfg: &TerraffiConfig) -> Seq<char>
    decreases fs.len(),
{
    if fs.len() == 0 {
        Seq::empty()
    } else {
        prototypes_text(fs.drop_last(), cfg) + match fs.last() {
            CItem::Function(f) => function_text(f, cfg),
            _ => Seq::empty(),
        } + "\n"@
    }
}

/// The linkage guard that opens the block of functions, for C++.
pub open spec fn linkage_open() -> Seq<char> {
    "\n#ifdef __cplusplus\nextern \"C\" {\n#endif // __cplusplus\n\n"@
}

/// The linkage guard that closes the block of functions.
pub open spec fn linkage_close() -> Seq<char> {
    "\n#ifdef __cplusplus\n}  // extern \"C\"\n#endif  // __cplusplus\n"@
}

/// The functions, inside the linkage guards; nothing without functions.
pub open spec fn functions_block(fs: Seq<CItem>, cfg: &TerraffiConfig) -> Seq<char> {
    if fs.len() == 0 {
        Seq::empty()
    } else {
        linkage_open() + prototypes_text(fs, cfg) + linkage_close()
    }
}

/// Whether writing the declarations of `items` other than functions, each
/// after an empty line, with the configuration `c0` gives `text` and leaves
/// the configuration `c1`: each is written with the configuration as the
/// ones before it left it, and a written type counts as declared after.
pub open spec fn types_written(items: Seq<CItem>, c0: TerraffiConfig, text: Seq<char>, c1: TerraffiConfig) -> bool
    decreases items.len(),
{
    if items.len() == 0 {
        text.len() == 0 && c1 == c0
    } else if items.last() is Function {
        types_written(items.drop_last(), c0, text, c1)
    } else {
        exists|mid: TerraffiConfig|
            {
                let piece = "\n"@ + #[trigger] item_text(items.last(), &mid);
                &&& piece.len() <= text.len()
                &&& text.subrange(text.len() - piece.len(), text.len() as int) == piece
                &&& types_written(items.drop_last(), c0, text.subrange(0, text.len() - piece.len()), mid)
                &&& same_settings(&mid, &c1)
                &&& name_set(c1.declared_types@) == if declares_type(items.last()) {
                    name_set(mid.declared_types@).insert(item_name(items.last()))
                } else {
                    name_set(mid.declared_types@)
                }
            }
    }
}

/// Whether `out` is the header of `items` with include guard `guard`,
/// written from configuration `c0`, which it leaves as `c1`: the preamble,
/// the declarations (see [`types_written`]), the functions, and the end of
/// the include guard.
pub open spec fn header_written(c0: TerraffiConfig, guard: Seq<char>, items: Seq<CItem>, c1: TerraffiConfig, out: Seq<char>) -> bool {
    let pre = preamble(&c0, guard);
    let post = functions_block(functions_of(items), &c1) + "\n#endif\n"@;
    &&& pre.len() + post.len() <= out.len()
    &&& out.subrange(0, pre.len() as int) == pre
    &&& out.subrange(out.len() - post.len(), out.len() as int) == post
    &&& types_written(items, c0, out.subrange(pre.len() as int, out.len() - post.len()), c1)
}

fn write_include(w: &mut Vec<char>, inc: &String)
    ensures
        final(w)@ == old(w)@ + include_line(inc@),
{
    let v = chars_of(inc.as_str());
    if has_prefix(&v, "#include ") {
        append_chars(w, &v);
        append_str(w, "\n");
    } else {
        let mut line: Vec<char> = Vec::new();
        if !(has_prefix(&v, "<") || has_prefix(&v, "\"")) {
            append_str(&mut line, "\"");
        }
        append_chars(&mut line, &v);
        if !(has_suffix(&line, ">") || has_suffix(&line, "\"")) {
            append_str(&mut line, "\"");
        }
        append_str(w, "#include ");
        append_chars(w, &line);
        append_str(w, "\n");
    }
}

fn write_comment(w: &mut Vec<char>, config: &TerraffiConfig)
    ensures
        final(w)@ == old(w)@ + comment_text(config.header_comment),
{
    let ghost start = old(w)@;
    if let Some(c) = &config.header_comment {
        append_str(w, "/*\n");
        let ls = lines_chars(&chars_of(c.as_str()));
        let mut i: usize = 0;
        while i < ls.len()
            invariant
                i <= ls@.len(),
                w@ == start + "/*\n"@ + comment_lines(views(ls@).subrange(0, i as int)),
            decreases ls.len() - i,
        {
            assert(views(ls@).subrange(0, i + 1).drop_last() =~= views(ls@).subrange(0, i as int));
            append_str(w, " * ");
            append_chars(w, &ls[i]);
            append_str(w, "\n");
            i = i + 1;
        }
        assert(views(ls@).subrange(0, ls@.len() as int) =~= views(ls@));
        append_str(w, " */\n\n");
    }
}

fn write_includes(w: &mut Vec<char>, config: &TerraffiConfig)
    ensures
        final(w)@ == old(w)@ + includes_text(config.additional_includes@),
{
    let ghost start = old(w)@;
    let mut i: usize = 0;
    while i < config.additional_includes.len()
        invariant
            i <= config.additional_includes@.len(),
            w@ == start + includes_text(config.additional_includes@.subrange(0, i as int)),
        decreases config.additional_includes.len() - i,
    {
        assert(config.additional_includes@.subrange(0, i + 1).drop_last() =~= config.additional_includes@.subrange(0, i as int));
        write_include(w, &config.additional_includes[i]);
        i = i + 1;
    }
    assert(config.additional_includes@.subrange(0, config.additional_includes@.len() as int) =~= config.additional_includes@);
}

fn write_export_block(w: &mut Vec<char>, m: &String)
    ensures
        final(w)@ == old(w)@ + export_block(m@),
{
    append_str(w, "\n#if defined _WIN32 || defined __CYGWIN__\n    #define ");
    append_str(w, m.as_str());
    append_str(w, " __declspec(dllimport)\n#elif __GNUC__ >= 4\n    #define ");
    append_str(w, m.as_str());
    append_str(w, " __attribute__ ((visibility (\"default\")))\n#else\n    #define ");
    append_str(w, m.as_str());
    append_str(w, "\n#endif\n");
}

fn write_macros(w: &mut Vec<char>, config: &TerraffiConfig)
    ensures
        final(w)@ == old(w)@ + macros_text(config.additional_macro_definitions@),
{
    let ghost start = old(w)@;
    let mut j: usize = 0;
    while j < config.additional_macro_definitions.len()
        invariant
            j <= config.additional_macro_definitions@.len(),
            w@ == start + macros_text(config.additional_macro_definitions@.subrange(0, j as int)),
        decreases config.additional_macro_definitions.len() - j,
    {
        assert(config.additional_macro_definitions@.subrange(0, j + 1).drop_last()
            =~= config.additional_macro_definitions@.subrange(0, j as int));
        append_str(w, "\n");
        config.additional_macro_definitions[j].emit(w, config);
        j = j + 1;
    }
    assert(config.additional_macro_definitions@.subrange(0, config.additional_macro_definitions@.len() as int)
        =~= config.additional_macro_definitions@);
}

fn write_preamble(w: &mut Vec<char>, config: &TerraffiConfig, guard: &str)
    ensures
        final(w)@ == old(w)@ + preamble(config, guard@),
{
    let ghost start = old(w)@;
    write_comment(w, config);
    let ghost s1 = w@;
    append_str(w, "#ifndef ");
    append_str(w, guard);
    append_str(w, "\n#define ");
    append_str(w, guard);
    append_str(w, "\n\n");
    assert(w@ =~= s1 + guard_text(guard@));
    let ghost s2 = w@;
    if config.is_add_std_includes {
        append_str(w, "#include <stdint.h>\n#include <stddef.h>\n#include <stdbool.h>\n");
    }
    assert(w@ =~= s2 + std_text(config.is_add_std_includes));
    let ghost s3 = w@;
    write_includes(w, config);
    let ghost s4 = w@;
    if let Some(m) = &config.export_macro {
        write_export_block(w, m);
    }
    assert(w@ =~= s4 + export_text(config.export_macro));
    let ghost s5 = w@;
    write_macros(w, config);
    assert(w@ =~= start + preamble(config, guard@));
}

proof fn lemma_types_step(
    items: Seq<CItem>,
    i: int,
    c0: TerraffiConfig,
    text: Seq<char>,
    mid: TerraffiConfig,
    c1: TerraffiConfig,
)
    requires
        0 <= i < items.len(),
        !(items[i] is Function),
        types_written(items.subrange(0, i), c0, text, mid),
        same_settings(&mid, &c1),
        name_set(c1.declared_types@) == if declares_type(items[i]) {
            name_set(mid.declared_types@).insert(item_name(items[i]))
        } else {
            name_set(mid.declared_types@)
        },
    ensures
        types_written(items.subrange(0, i + 1), c0, text + "\n"@ + item_text(items[i], &mid), c1),
{
    let next = items.subrange(0, i + 1);
    assert(next.drop_last() =~= items.subrange(0, i));
    assert(next.last() == items[i]);
    let out = text + "\n"@ + item_text(items[i], &mid);
    let piece = "\n"@ + item_text(next.last(), &mid);
    assert(out.subrange(out.len() - piece.len(), out.len() as int) =~= piece);
    assert(out.subrange(0, out.len() - piece.len()) =~= text);
    assert(types_written(next.drop_last(), c0, out.subrange(0, out.len() - piece.len()), mid));
}

/// Writes the header of `items` with the include guard `guard` (see
/// [`header_written`]); each type written counts as declared in `config`.
pub fn write_header(config: &mut TerraffiConfig, guard: &str, items: &Vec<CItem>) -> (r: Vec<char>)
    ensures
        header_written(*old(config), guard@, items@, *final(config), r@),
{
    let ghost c0 = *config;
    let mut w: Vec<char> = Vec::new();
    write_preamble(&mut w, config, guard);
    let ghost pre = w@;
    assert(pre == preamble(&c0, guard@));
    let mut i: usize = 0;
    assert(items@.subrange(0, 0) =~= Seq::<CItem>::empty());
    assert(w@.subrange(pre.len() as int, w@.len() as int) =~= Seq::<char>::empty());
    while i < items.len()
        invariant
            i <= items@.len(),
            w@.len() >= pre.len(),
            w@.subrange(0, pre.len() as int) == pre,
            types_written(items@.subrange(0, i as int), c0, w@.subrange(pre.len() as int, w@.len() as int), *config),
        decreases items.len() - i,
    {
        let ghost text = w@.subrange(pre.len() as int, w@.len() as int);
        let ghost mid = *config;
        if items[i].is_function() {
            proof {
                assert(items@.subrange(0, i + 1).drop_last() =~= items@.subrange(0, i as int));
            }
        } else {
            append_str(&mut w, "\n");
            items[i].emit(&mut w, config);
            proof {
                lemma_types_step(items@, i as int, c0, text, mid, *config);
                assert(w@.subrange(pre.len() as int, w@.len() as int) =~= text + "\n"@ + item_text(items@[i as int], &mid));
                assert(w@.subrange(0, pre.len() as int) =~= pre);
            }
        }
        i = i + 1;
    }
    assert(items@.subrange(0, items@.len() as int) =~= items@);
    let ghost body_end = w@;
    let mut protos: Vec<char> = Vec::new();
    let mut count: usize = 0;
    let mut j: usize = 0;
    while j < items.len()
        invariant
            j <= items@.len(),
            count <= j,
            count == functions_of(items@.subrange(0, j as int)).len(),
            protos@ == prototypes_text(functions_of(items@.subrange(0, j as int)), config),
        decreases items.len() - j,
    {
        assert(items@.subrange(0, j + 1).drop_last() =~= items@.subrange(0, j as int));
        assert(items@.subrange(0, j + 1).last() == items@[j as int]);
        if let CItem::Function(f) = &items[j] {
            f.emit(&mut protos, config);
            append_str(&mut protos, "\n");
            count = count + 1;
            proof {
                let fs = functions_of(items@.subrange(0, j as int));
                assert(functions_of(items@.subrange(0, j + 1)) == fs.push(items@[j as int]));
                assert(fs.push(items@[j as int]).drop_last() =~= fs);
                assert(protos@ =~= prototypes_text(fs.push(items@[j as int]), config));
            }
        }
        j = j + 1;
    }
    let ghost fs = functions_of(items@);
    if count > 0 {
        append_str(&mut w, "\n#ifdef __cplusplus\nextern \"C\" {\n#endif // __cplusplus\n\n");
        append_chars(&mut w, &protos);
        append_str(&mut w, "\n#ifdef __cplusplus\n}  // extern \"C\"\n#endif  // __cplusplus\n");
    }
    append_str(&mut w, "\n#endif\n");
    proof {
        let post = functions_block(fs, config) + "\n#endif\n"@;
        assert(w@ =~= body_end + post);
        assert(w@.subrange(0, pre.len() as int) =~= pre);
        assert(w@.subrange(w@.len() - post.len(), w@.len() as int) =~= post);
        assert(w@.subrange(pre.len() as int, w@.len() - post.len()) =~= body_end.subrange(pre.len() as int, body_end.len() as int));
    }
    w
}

} // verus!
