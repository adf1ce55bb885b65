//! The C names the header gives to the types it declares, and the builtin
//! declarations it adds for referenced types no crate declares.

use vstd::prelude::*;
use crate::config::{
    TerraffiConfig, assoc, assoc_insert_absent, name_set, struct_name_of, struct_bare_name_of,
    enum_name_of, enum_bare_name_of,
};
use crate::ctype::CType;
use crate::doc::{CDoc, opt_view};
use crate::items::{CItem, CStruct, CStructField, TerraffiExportStatus, item_name};
use crate::text::{owned, str_eq};
use crate::validate::declared_names;

verus! {

/// Whether an item's name goes in the name maps: a type declaration.
pub open spec fn registers(item: CItem) -> bool {
    item is Struct || item is Enum || item is DiscriminatedUnion || item is Bitflags || item is Typedef
}

/// The C name an item registers: an enum's with the enum affixes, any other
/// type's with the struct affixes; without the suffix when `bare`.
pub open spec fn registered_name(item: CItem, cfg: &TerraffiConfig, bare: bool) -> Seq<char> {
    let n = item_name(item);
    if item is Enum {
        if bare {
            enum_bare_name_of(cfg, n)
        } else {
            enum_name_of(cfg, n)
        }
    } else {
        if bare {
            struct_bare_name_of(cfg, n)
        } else {
            struct_name_of(cfg, n)
        }
    }
}

/// The name that the first of `items` declaring the type `key` registers.
pub open spec fn first_registration(items: Seq<CItem>, cfg: &TerraffiConfig, key: Seq<char>, bare: bool) -> Option<
    Seq<char>,
>
    decreases items.len(),
{
    if items.len() == 0 {
        None
    } else {
        match first_registration(items.drop_last(), cfg, key, bare) {
            Some(v) => Some(v),
            None => if registers(items.last()) && item_name(items.last()) == key {
                Some(registered_name(items.last(), cfg, bare))
            } else {
                None
            },
        }
    }
}

/// `a`, else `b`.
pub open spec fn or_else(a: Option<Seq<char>>, b: Option<Seq<char>>) -> Option<Seq<char>> {
    match a {
        Some(x) => Some(x),
        None => b,
    }
}

/// Whether the formatting settings of two configurations agree.
pub open spec fn same_format(a: &TerraffiConfig, b: &TerraffiConfig) -> bool {
    &&& a.struct_prefix == b.struct_prefix
    &&& a.struct_suffix == b.struct_suffix
    &&& a.enum_prefix == b.enum_prefix
    &&& a.enum_suffix == b.enum_suffix
    &&& a.type_case == b.type_case
}

/// The names registered depend on the formatting settings alone.
pub proof fn lemma_registration_format(items: Seq<CItem>, a: &TerraffiConfig, b: &TerraffiConfig, key: Seq<char>, bare: bool)
    requires
        same_format(a, b),
    ensures
        first_registration(items, a, key, bare) == first_registration(items, b, key, bare),
    decreases items.len(),
{
    if items.len() > 0 {
        lemma_registration_format(items.drop_last(), a, b, key, bare);
    }
}

/// Enters the C name of every type `items` declare in the name maps, keeping
/// the names already there, the first declaration of a name winning (see
/// [`first_registration`]).
pub fn register_names(
    items: &Vec<CItem>,
    config: &TerraffiConfig,
    full: &mut Vec<(String, String)>,
    bare: &mut Vec<(String, String)>,
)
    ensures
        forall|k: Seq<char>|
            #[trigger] assoc(final(full)@, k) == or_else(assoc(old(full)@, k), first_registration(items@, config, k, false)),
        forall|k: Seq<char>|
            #[trigger] assoc(final(bare)@, k) == or_else(assoc(old(bare)@, k), first_registration(items@, config, k, true)),
{
    let mut i: usize = 0;
    while i < items.len()
        invariant
            i <= items@.len(),
            forall|k: Seq<char>|
                #[trigger] assoc(full@, k) == or_else(
                    assoc(old(full)@, k),
                    first_registration(items@.subrange(0, i as int), config, k, false),
                ),
            forall|k: Seq<char>|
                #[trigger] assoc(bare@, k) == or_else(
                    assoc(old(bare)@, k),
                    first_registration(items@.subrange(0, i as int), config, k, true),
                ),
        decreases items.len() - i,
    {
        assert(items@.subrange(0, i + 1).drop_last() =~= items@.subrange(0, i as int));
        let item = &items[i];
        let named = match item {
            CItem::Struct(_) | CItem::DiscriminatedUnion(_) | CItem::Bitflags(_) | CItem::Typedef(_) => Some(
                (config.format_struct_name(item.name()), config.format_struct_name_bare(item.name())),
            ),
            CItem::Enum(_) => Some((config.format_enum_name(item.name()), config.format_enum_name_bare(item.name()))),
            _ => None,
        };
        if let Some((f, b)) = named {
            let key = owned(item.name());
            assoc_insert_absent(full, &key, f);
            assoc_insert_absent(bare, &key, b);
        }
        i = i + 1;
    }
    assert(items@.subrange(0, items@.len() as int) =~= items@);
}

/// Whether `item` is the builtin declaration of `CStringBuffer`: a struct of
/// a pointer to a null-terminated string and its length.
pub open spec fn is_string_buffer_item(item: CItem) -> bool {
    item matches CItem::Struct(s) && {
        &&& s.name@ == "CStringBuffer"@
        &&& opt_view(s.doc.brief) == Some("An owned null-terminated UTF-8 string buffer."@)
        &&& opt_view(s.doc.description) == Some(
            "A null pointer represents an absent value (equivalent to None). The buffer must end with a null byte for C compatibility."@,
        )
        &&& s.export_status == TerraffiExportStatus::Public
        &&& s.source_order == 0
        &&& s.fields@.len() == 2
        &&& s.fields@[0].name@ == "ptr"@
        &&& opt_view(s.fields@[0].doc.brief) == Some("Pointer to a null-terminated UTF-8 string, or NULL if absent."@)
        &&& s.fields@[0].doc.description is None
        &&& s.fields@[0].ty == CType::Pointer { is_const: true, inner: Box::new(CType::Char) }
        &&& s.fields@[1].name@ == "len"@
        &&& opt_view(s.fields@[1].doc.brief) == Some("Length of the string in bytes, including the null terminator."@)
        &&& s.fields@[1].doc.description is None
        &&& s.fields@[1].ty == CType::USize
    }
}

/// The builtin declaration of `CStringBuffer` (see [`is_string_buffer_item`]).
pub fn string_buffer_item() -> (r: CItem)
    ensures
        is_string_buffer_item(r),
{
    CItem::Struct(CStruct {
        name: owned("CStringBuffer"),
        doc: CDoc {
            brief: Some(owned("An owned null-terminated UTF-8 string buffer.")),
            description: Some(
                owned(
                    "A null pointer represents an absent value (equivalent to None). The buffer must end with a null byte for C compatibility.",
                ),
            ),
        },
        export_status: TerraffiExportStatus::Public,
        source_order: 0,
        fields: vec![
            CStructField {
                name: owned("ptr"),
                doc: CDoc {
                    brief: Some(owned("Pointer to a null-terminated UTF-8 string, or NULL if absent.")),
                    description: None,
                },
                ty: CType::Pointer { is_const: true, inner: Box::new(CType::Char) },
            },
            CStructField {
                name: owned("len"),
                doc: CDoc {
                    brief: Some(owned("Length of the string in bytes, including the null terminator.")),
                    description: None,
                },
                ty: CType::USize,
            },
        ],
    })
}

/// Whether the referenced type `k` is declared by none of `items`, so the
/// header names it as a builtin.
pub open spec fn is_builtin(referenced: Set<Seq<char>>, items: Seq<CItem>, k: Seq<char>) -> bool {
    referenced.contains(k) && !declared_names(items).contains(k)
}

fn is_declared_in(items: &Vec<CItem>, name: &str) -> (r: bool)
    ensures
        r == declared_names(items@).contains(name@),
{
    let mut i: usize = 0;
    while i < items.len()
        invariant
            i <= items@.len(),
            forall|j: int| 0 <= j < i ==> (items@[j] is Function || item_name(#[trigger] items@[j]) != name@),
        decreases items.len() - i,
    {
        if !items[i].is_function() && str_eq(items[i].name(), name) {
            assert(declared_names(items@).contains(name@)) by {
                assert(!(items@[i as int] is Function) && item_name(items@[i as int]) == name@);
            }
            return true;
        }
        i = i + 1;
    }
    false
}

/// Gives every referenced type that `items` do not declare its struct name,
/// keeping names already there, and adds the builtin declaration of
/// `CStringBuffer` where that is one of them.
pub fn add_builtins(
    items: &mut Vec<CItem>,
    referenced: &Vec<String>,
    config: &TerraffiConfig,
    full: &mut Vec<(String, String)>,
    bare: &mut Vec<(String, String)>,
)
    ensures
        forall|k: Seq<char>|
            #[trigger] assoc(final(full)@, k) == or_else(
                assoc(old(full)@, k),
                if is_builtin(name_set(referenced@), old(items)@, k) {
                    Some(struct_name_of(config, k))
                } else {
                    None
                },
            ),
        forall|k: Seq<char>|
            #[trigger] assoc(final(bare)@, k) == or_else(
                assoc(old(bare)@, k),
                if is_builtin(name_set(referenced@), old(items)@, k) {
                    Some(struct_bare_name_of(config, k))
                } else {
                    None
                },
            ),
        if is_builtin(name_set(referenced@), old(items)@, "CStringBuffer"@) {
            final(items)@.len() == old(items)@.len() + 1 && final(items)@.drop_last() == old(items)@
                && is_string_buffer_item(final(items)@.last())
        } else {
            final(items)@ == old(items)@
        },
{
    let ghost start = items@;
    let mut pushed = false;
    let mut i: usize = 0;
    while i < referenced.len()
        invariant
            i <= referenced@.len(),
            start == old(items)@,
            forall|k: Seq<char>|
                #[trigger] assoc(full@, k) == or_else(
                    assoc(old(full)@, k),
                    if is_builtin(name_set(referenced@.subrange(0, i as int)), start, k) {
                        Some(struct_name_of(config, k))
                    } else {
                        None
                    },
                ),
            forall|k: Seq<char>|
                #[trigger] assoc(bare@, k) == or_else(
                    assoc(old(bare)@, k),
                    if is_builtin(name_set(referenced@.subrange(0, i as int)), start, k) {
                        Some(struct_bare_name_of(config, k))
                    } else {
                        None
                    },
                ),
            pushed == is_builtin(name_set(referenced@.subrange(0, i as int)), start, "CStringBuffer"@),
            if pushed {
                items@.len() == start.len() + 1 && items@.drop_last() == start && is_string_buffer_item(items@.last())
            } else {
                items@ == start
            },
        decreases referenced.len() - i,
    {
        let ghost before = name_set(referenced@.subrange(0, i as int));
        assert(name_set(referenced@.subrange(0, i + 1)) =~= before.insert(referenced@[i as int]@)) by {
            assert forall|n: Seq<char>| name_set(referenced@.subrange(0, i + 1)).contains(n) implies before.insert(
                referenced@[i as int]@,
            ).contains(n) by {
                let j = choose|j: int| 0 <= j < i + 1 && (#[trigger] referenced@.subrange(0, i + 1)[j])@ == n;
                if j < i {
                    assert(referenced@.subrange(0, i as int)[j] == referenced@.subrange(0, i + 1)[j]);
                }
            }
            assert forall|n: Seq<char>| before.insert(referenced@[i as int]@).contains(n) implies name_set(
                referenced@.subrange(0, i + 1),
            ).contains(n) by {
                if n == referenced@[i as int]@ {
                    assert(referenced@.subrange(0, i + 1)[i as int] == referenced@[i as int]);
                } else {
                    let j = choose|j: int| 0 <= j < i && (#[trigger] referenced@.subrange(0, i as int)[j])@ == n;
                    assert(referenced@.subrange(0, i as int)[j] == referenced@.subrange(0, i + 1)[j]);
                }
            }
        }
        let name = &referenced[i];
        let declared = if pushed {
            proof {
                assert(items@.drop_last() == start);
            }
            let mut found = false;
            let mut j: usize = 0;
            let upto = items.len() - 1;
            while j < upto
                invariant
                    j <= upto,
                    upto == start.len(),
                    items@.drop_last() == start,
                    items@.len() == start.len() + 1,
                    found == exists|x: int| 0 <= x < j && !(start[x] is Function) && item_name(#[trigger] start[x]) == name@,
                decreases upto - j,
            {
                assert(items@[j as int] == start[j as int]);
                if !items[j].is_function() && str_eq(items[j].name(), name.as_str()) {
                    found = true;
                }
                j = j + 1;
            }
            found
        } else {
            is_declared_in(items, name.as_str())
        };
        proof {
            assert(declared == declared_names(start).contains(name@));
        }
        if !declared {
            let f = config.format_struct_name(name.as_str());
            let b = config.format_struct_name_bare(name.as_str());
            assoc_insert_absent(full, name, f);
            assoc_insert_absent(bare, name, b);
            if !pushed && str_eq(name.as_str(), "CStringBuffer") {
                items.push(string_buffer_item());
                pushed = true;
            }
        }
        i = i + 1;
    }
    assert(referenced@.subrange(0, referenced@.len() as int) =~= referenced@);
}

} // verus!
