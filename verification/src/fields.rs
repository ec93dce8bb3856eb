//! Field-naming rules for aggregate deserialization glue.
//!
//! A generated `Deserialize` implementation resolves each member of a named
//! aggregate by a string: the field's declared name, unless an attribute of
//! the form `serde(rename = "...")` overrides it.  A `serde(default)`
//! attribute marks a member whose absence is filled with a default instead
//! of failing.  This module carries attribute metadata as plain values and
//! decides those rules.

use vstd::prelude::*;

verus! {

/// One item of attribute metadata: a bare word (`default`), a name–value
/// pair (`rename = "..."`), or a named list of nested items (the body of a
/// `serde(...)` attribute).
pub enum MetaItem {
    Word(String),
    NameValue(String, String),
    List(String, Vec<MetaItem>),
}

/// One declared field of an aggregate: its name, if the field is named
/// rather than positional, and its attribute metadata.
pub struct StructField {
    pub name: Option<String>,
    pub attrs: Vec<MetaItem>,
}

/// Whether a metadata item is a `serde(...)` attribute body.
pub open spec fn is_serde_list(m: MetaItem) -> bool {
    m matches MetaItem::List(n, _) && n@ == "serde"@
}

/// The first `serde(...)` attribute among `attrs`, if any: only that one is
/// consulted for a rename.
pub open spec fn first_serde(attrs: Seq<MetaItem>) -> Option<MetaItem>
    decreases attrs.len(),
{
    if attrs.len() == 0 {
        None
    } else if is_serde_list(attrs[0]) {
        Some(attrs[0])
    } else {
        first_serde(attrs.skip(1))
    }
}

/// The value of the last `rename = "..."` pair among `items`, if any: a
/// later pair overrides an earlier one within the same attribute.
pub open spec fn rename_in(items: Seq<MetaItem>) -> Option<Seq<char>>
    decreases items.len(),
{
    if items.len() == 0 {
        None
    } else {
        match items.last() {
            MetaItem::NameValue(n, v) => if n@ == "rename"@ {
                Some(v@)
            } else {
                rename_in(items.drop_last())
            },
            _ => rename_in(items.drop_last()),
        }
    }
}

/// The rename a field's attributes declare, if any: the last `rename` pair
/// inside the first `serde(...)` attribute.
pub open spec fn rename_of(attrs: Seq<MetaItem>) -> Option<Seq<char>> {
    match first_serde(attrs) {
        Some(MetaItem::List(_, items)) => rename_in(items@),
        _ => None,
    }
}

/// Whether `items` contain the bare word `default`.
pub open spec fn has_default_word(items: Seq<MetaItem>) -> bool {
    exists|i: int|
        0 <= i < items.len() && (#[trigger] items[i] matches MetaItem::Word(w) && w@ == "default"@)
}

/// Whether any `serde(...)` attribute among `attrs` carries the `default`
/// word.
pub open spec fn default_of(attrs: Seq<MetaItem>) -> bool {
    exists|i: int|
        0 <= i < attrs.len() && (#[trigger] attrs[i] matches MetaItem::List(n, items) && n@
            == "serde"@ && has_default_word(items@))
}

/// The string a generated implementation resolves a field by: its declared
/// rename, or else its declared name.
pub open spec fn field_str_of(f: StructField) -> Seq<char> {
    match rename_of(f.attrs@) {
        Some(s) => s,
        None => match f.name {
            Some(n) => n@,
            None => Seq::empty(),
        },
    }
}

/// The rename a field's attributes declare, if any.
#[verifier::loop_isolation(false)]
pub fn field_rename(field: &StructField) -> (r: Option<String>)
    ensures
        match r {
            Some(s) => rename_of(field.attrs@) == Some(s@),
            None => rename_of(field.attrs@) is None,
        },
{
    let serde_name = "serde".to_owned();
    let rename_name = "rename".to_owned();
    let n_attrs = field.attrs.len();
    let mut i: usize = 0;
    proof {
        assert(field.attrs@.skip(0) =~= field.attrs@);
    }
    while i < n_attrs
        invariant
            n_attrs == field.attrs@.len(),
            0 <= i <= n_attrs,
            first_serde(field.attrs@) == first_serde(field.attrs@.skip(i as int)),
            serde_name@ == "serde"@,
            rename_name@ == "rename"@,
        decreases n_attrs - i,
    {
        proof {
            assert(field.attrs@.skip(i as int)[0] == field.attrs@[i as int]);
            assert(field.attrs@.skip(i as int).skip(1) =~= field.attrs@.skip(i as int + 1));
        }
        match &field.attrs[i] {
            MetaItem::List(n, items) => {
                if *n == serde_name {
                    // The first serde attribute decides: scan its items for
                    // the last rename pair.
                    let n_items = items.len();
                    let mut found: Option<&String> = None;
                    let mut j: usize = 0;
                    while j < n_items
                        invariant
                            n_items == items@.len(),
                            0 <= j <= n_items,
                            match found {
                                Some(s) => rename_in(items@.take(j as int)) == Some(s@),
                                None => rename_in(items@.take(j as int)) is None,
                            },
                            rename_of(field.attrs@) == rename_in(items@),
                            rename_name@ == "rename"@,
                        decreases n_items - j,
                    {
                        proof {
                            assert(items@.take(j as int + 1).drop_last() =~= items@.take(j as int));
                            assert(items@.take(j as int + 1).last() == items@[j as int]);
                        }
                        match &items[j] {
                            MetaItem::NameValue(n2, v) => {
                                if *n2 == rename_name {
                                    found = Some(v);
                                }
                            },
                            _ => {},
                        }
                        j += 1;
                    }
                    proof {
                        assert(items@.take(n_items as int) =~= items@);
                    }
                    return match found {
                        Some(s) => Some(s.clone()),
                        None => None,
                    };
                }
            },
            _ => {},
        }
        i += 1;
    }
    proof {
        assert(field.attrs@.skip(n_attrs as int) =~= Seq::<MetaItem>::empty());
    }
    None
}

/// The resolution strings of an aggregate's fields, in declaration order:
/// each field's rename, or else its declared name.  Every positional field
/// must carry a rename, since it has no name to fall back on.
#[verifier::loop_isolation(false)]
pub fn struct_field_strs(fields: &Vec<StructField>) -> (r: Vec<String>)
    requires
        forall|i: int|
            0 <= i < fields@.len() ==> rename_of(#[trigger] fields@[i].attrs@) is Some
                || fields@[i].name is Some,
    ensures
        r@.len() == fields@.len(),
        forall|i: int| 0 <= i < r@.len() ==> #[trigger] r@[i]@ == field_str_of(fields@[i]),
{
    let n = fields.len();
    let mut r: Vec<String> = Vec::with_capacity(n);
    let mut i: usize = 0;
    while i < n
        invariant
            n == fields@.len(),
            0 <= i <= n,
            r@.len() == i,
            forall|k: int| 0 <= k < i ==> #[trigger] r@[k]@ == field_str_of(fields@[k]),
            forall|k: int|
                0 <= k < fields@.len() ==> rename_of(#[trigger] fields@[k].attrs@) is Some
                    || fields@[k].name is Some,
        decreases n - i,
    {
        let s = match field_rename(&fields[i]) {
            Some(rename) => rename,
            None => match &fields[i].name {
                Some(name) => name.clone(),
                None => {
                    // Ruled out by the precondition: a positional field
                    // always carries a rename.
                    proof {
                        assert(rename_of(fields@[i as int].attrs@) is Some);
                    }
                    unreached()
                },
            },
        };
        r.push(s);
        i += 1;
    }
    r
}

/// Whether a field's absence is filled with a default value rather than
/// reported as a missing member.
#[verifier::loop_isolation(false)]
pub fn default_value(field: &StructField) -> (r: bool)
    ensures
        r == default_of(field.attrs@),
{
    let serde_name = "serde".to_owned();
    let default_name = "default".to_owned();
    let n_attrs = field.attrs.len();
    let mut i: usize = 0;
    while i < n_attrs
        invariant
            n_attrs == field.attrs@.len(),
            0 <= i <= n_attrs,
            !default_of(field.attrs@.take(i as int)),
            serde_name@ == "serde"@,
            default_name@ == "default"@,
        decreases n_attrs - i,
    {
        match &field.attrs[i] {
            MetaItem::List(n, items) => {
                if *n == serde_name {
                    let n_items = items.len();
                    let mut j: usize = 0;
                    while j < n_items
                        invariant
                            n_items == items@.len(),
                            0 <= j <= n_items,
                            !has_default_word(items@.take(j as int)),
                            default_name@ == "default"@,
                        decreases n_items - j,
                    {
                        match &items[j] {
                            MetaItem::Word(w) => {
                                if *w == default_name {
                                    proof {
                                        assert(items@[j as int] matches MetaItem::Word(w2) && w2@
                                            == "default"@);
                                        assert(has_default_word(items@));
                                        assert(field.attrs@[i as int] matches MetaItem::List(
                                            n2,
                                            items2,
                                        ) && n2@ == "serde"@ && has_default_word(items2@));
                                        assert(default_of(field.attrs@));
                                    }
                                    return true;
                                }
                            },
                            _ => {},
                        }
                        proof {
                            assert forall|k: int| 0 <= k < j as int + 1 implies !(
                            #[trigger] items@.take(j as int + 1)[k] matches MetaItem::Word(w) && w@
                                == "default"@) by {
                                assert(items@.take(j as int + 1)[k] == items@[k]);
                                if k < j as int {
                                    assert(items@.take(j as int)[k] == items@[k]);
                                }
                            }
                        }
                        j += 1;
                    }
                    proof {
                        assert(items@.take(n_items as int) =~= items@);
                    }
                }
            },
            _ => {},
        }
        proof {
            assert forall|k: int| 0 <= k < i as int + 1 implies !(
            #[trigger] field.attrs@.take(i as int + 1)[k] matches MetaItem::List(n2, items2) && n2@
                == "serde"@ && has_default_word(items2@)) by {
                assert(field.attrs@.take(i as int + 1)[k] == field.attrs@[k]);
                if k < i as int {
                    assert(field.attrs@.take(i as int)[k] == field.attrs@[k]);
                }
            }
        }
        i += 1;
    }
    proof {
        assert(field.attrs@.take(n_attrs as int) =~= field.attrs@);
    }
    false
}

} // verus!
