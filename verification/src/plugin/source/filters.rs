//! The sort and filter options that a discover-capable plugin declares.
use vstd::prelude::*;
use crate::error::{
    first, first_of, lemma_first_of_found, lemma_first_of_none, outcome, outcome_check,
    outcome_list, unless, Error, Fault,
};
use crate::plugin::i18n::{LocalizedText, LocalizedView};
use crate::plugin::lua::{
    at, complain, complaint, explain_kind, localized_field, not_a, number_entry, numbered,
    optional_string_sequence, optional_table, optional_table_fault, optional_texts_fault, place_of,
    require_localized_text, require_string, require_string_sequence, required_localized_fault,
    required_text_fault, required_texts_fault, table_field, text_field, text_items,
    text_items_fault, texts_field, LuaTable, LuaValue,
};
use crate::plugin::source::entry::Dialect;
use crate::plugin::source::labels;
use crate::plugin::source::labels::{
    label, label_fault, read_label, require_label, required_label_fault,
};
use crate::plugin::source::types::{
    DiscoverFilter, DiscoverFilterOption, DiscoverFilterOptionView, DiscoverFilterType,
    DiscoverFilterView, DiscoverSort, DiscoverSortView,
};
use crate::text::{holds_text, lemma_views_push, same, views};

verus! {

// ---------------------------------------------------------------------------
// Sorts

/// The rules for one sort option.
pub open spec fn sort_fault(dialect: Dialect, item: LuaValue, i: int) -> Option<Fault> {
    let context = numbered("info().capabilities.discover.sorts"@, i);
    match item {
        LuaValue::Table(t) => first(
            required_text_fault(t, "key"@, context),
            first(
                required_label_fault(dialect, t, "label"@, context),
                unless(
                    text_field(t, "key"@).len() > 0 && label(dialect, t, "label"@).text().len() > 0,
                    Fault::Internal(
                        context + ".key and "@ + context + ".label must not be empty"@,
                    ),
                ),
            ),
        ),
        other => Some(Fault::Internal(context + " must be a table: "@ + not_a(other, "table"@))),
    }
}

pub open spec fn sort_value(dialect: Dialect, item: LuaValue) -> DiscoverSortView {
    let t = item->Table_0;
    DiscoverSortView { key: text_field(t, "key"@), label: label(dialect, t, "label"@) }
}

pub open spec fn sort_faults(
    dialect: Dialect,
    items: Seq<LuaValue>,
) -> spec_fn(int) -> Option<Fault> {
    |i: int| sort_fault(dialect, items[i], i)
}

pub open spec fn sorts_fault(dialect: Dialect, discover: LuaTable) -> Option<Fault> {
    first(
        optional_table_fault(discover, "sorts"@, "info().capabilities.discover"@),
        match table_field(discover, "sorts"@) {
            Some(t) => first_of(t.sequence@.len() as int, sort_faults(dialect, t.sequence@)),
            None => None,
        },
    )
}

pub open spec fn sorts_value(dialect: Dialect, discover: LuaTable) -> Seq<DiscoverSortView> {
    match table_field(discover, "sorts"@) {
        Some(t) => Seq::new(t.sequence@.len(), |i: int| sort_value(dialect, t.sequence@[i])),
        None => Seq::empty(),
    }
}

fn parse_sort(dialect: Dialect, item: &LuaValue, i: usize) -> (r: Result<DiscoverSort, Error>)
    requires
        i < usize::MAX,
    ensures
        outcome(r, sort_fault(dialect, *item, i as int), sort_value(dialect, *item)),
{
    let context = number_entry("info().capabilities.discover.sorts", i);
    match item {
        LuaValue::Table(t) => {
            let key = require_string(t, "key", context.as_str())?;
            let label = require_label(dialect, t, "label", context.as_str())?;
            if key.as_str().is_empty() || label.text().is_empty() {
                let mut text = context.clone();
                text.append(".key and ");
                text.append(context.as_str());
                text.append(".label must not be empty");
                return Err(Error::Internal(text));
            }
            Ok(DiscoverSort { key, label })
        },
        other => {
            let mut text = context;
            text.append(" must be a table: ");
            let why = explain_kind(other, "table");
            text.append(why.as_str());
            Err(Error::Internal(text))
        },
    }
}

/// Reads the optional list of sort options.
pub fn optional_discover_sorts(
    dialect: Dialect,
    discover: &LuaTable,
) -> (r: Result<Vec<DiscoverSort>, Error>)
    ensures
        outcome_list(r, sorts_fault(dialect, *discover), sorts_value(dialect, *discover)),
{
    let mut sorts: Vec<DiscoverSort> = Vec::new();
    match optional_table(discover, "sorts", "info().capabilities.discover")? {
        None => {
            assert(views(sorts@) =~= Seq::<DiscoverSortView>::empty());
            Ok(sorts)
        },
        Some(table) => {
            let items = &table.sequence;
            let ghost value = |i: int| sort_value(dialect, items@[i]);
            let mut i: usize = 0;
            while i < items.len()
                invariant
                    i <= items.len(),
                    first_of(i as int, sort_faults(dialect, items@)) is None,
                    value == (|i: int| sort_value(dialect, items@[i])),
                    views(sorts@) == Seq::new(i as nat, value),
                    sorts_fault(dialect, *discover) == first_of(items@.len() as int, sort_faults(dialect, items@)),
                decreases items.len() - i,
            {
                proof {
                    if sort_fault(dialect, items@[i as int], i as int) is Some {
                        lemma_first_of_found(i as int, items@.len() as int, sort_faults(dialect, items@));
                    }
                }
                let sort = parse_sort(dialect, &items[i], i)?;
                proof {
                    lemma_views_push(sorts@, sort);
                    assert(Seq::new((i + 1) as nat, value) =~= Seq::new(i as nat, value).push(
                        value(i as int),
                    ));
                }
                sorts.push(sort);
                i = i + 1;
            }
            Ok(sorts)
        },
    }
}

// ---------------------------------------------------------------------------
// Filters

/// The filter that stands for the tags of a plugin without declared filters.
pub open spec fn legacy_filter(tags: Seq<Seq<char>>) -> Seq<DiscoverFilterView> {
    if tags.len() == 0 {
        Seq::empty()
    } else {
        seq![
            DiscoverFilterView {
                id: "tags"@,
                title: LocalizedView::Raw("Tags"@),
                ty: DiscoverFilterType::MultiSelect,
                options: plain_options(tags),
                description: LocalizedView::none(),
                confirmation: LocalizedView::none(),
            },
        ]
    }
}

/// Options whose labels are their values.
pub open spec fn plain_options(values: Seq<Seq<char>>) -> Seq<DiscoverFilterOptionView> {
    Seq::new(
        values.len(),
        |i: int|
            DiscoverFilterOptionView { value: values[i], label: LocalizedView::Raw(values[i]) },
    )
}

fn options_of(values: &Vec<String>) -> (options: Vec<DiscoverFilterOption>)
    ensures
        views(options@) == plain_options(views(values@)),
{
    let mut options: Vec<DiscoverFilterOption> = Vec::new();
    let mut i: usize = 0;
    while i < values.len()
        invariant
            i <= values.len(),
            views(options@) == plain_options(views(values@).take(i as int)),
        decreases values.len() - i,
    {
        let option = DiscoverFilterOption {
            value: values[i].clone(),
            label: LocalizedText::raw(values[i].as_str()),
        };
        proof {
            lemma_views_push(options@, option);
        }
        options.push(option);
        i = i + 1;
        assert(views(options@) =~= plain_options(views(values@).take(i as int)));
    }
    assert(views(values@).take(i as int) =~= views(values@));
    options
}

pub fn legacy_discover_filter(tags: &Vec<String>) -> (filters: Vec<DiscoverFilter>)
    ensures
        views(filters@) == legacy_filter(views(tags@)),
{
    let mut filters: Vec<DiscoverFilter> = Vec::new();
    if tags.len() > 0 {
        let filter = DiscoverFilter {
            id: "tags".to_owned(),
            title: LocalizedText::raw("Tags"),
            ty: DiscoverFilterType::MultiSelect,
            options: options_of(tags),
            description: LocalizedText::default(),
            confirmation: LocalizedText::default(),
        };
        filters.push(filter);
    }
    assert(views(filters@) =~= legacy_filter(views(tags@)));
    filters
}

/// The rules for one declared option.
pub open spec fn option_fault(item: LuaValue, context: Seq<char>, i: int) -> Option<Fault> {
    let place = numbered(at(context, "options"@), i);
    match item {
        LuaValue::Table(t) => first(
            required_text_fault(t, "value"@, place),
            required_localized_fault(t, "label"@, place),
        ),
        other => Some(Fault::Internal(place + " must be an object: "@ + not_a(other, "table"@))),
    }
}

pub open spec fn option_faults(items: Seq<LuaValue>, context: Seq<char>) -> spec_fn(int) -> Option<
    Fault,
> {
    |i: int| option_fault(items[i], context, i)
}

pub open spec fn option_value(item: LuaValue) -> DiscoverFilterOptionView {
    let t = item->Table_0;
    DiscoverFilterOptionView { value: text_field(t, "value"@), label: localized_field(t, "label"@) }
}

/// Options of a plain dialect; a value without a label of its own is its label.
pub open spec fn labelled_options(values: Seq<Seq<char>>, labels: Seq<Seq<char>>) -> Seq<
    DiscoverFilterOptionView,
> {
    Seq::new(
        values.len(),
        |i: int|
            DiscoverFilterOptionView {
                value: values[i],
                label: LocalizedView::Raw(
                    if i < labels.len() {
                        labels[i]
                    } else {
                        values[i]
                    },
                ),
            },
    )
}

/// Labels of a plain dialect stand beside all values or beside none, and none is
/// empty.
pub open spec fn value_labels_fault(dialect: Dialect, t: LuaTable, context: Seq<char>) -> Option<
    Fault,
> {
    let labels = texts_field(t, "value_labels"@);
    if dialect.localized() {
        None
    } else {
        first(
            unless(
                labels.len() == 0 || labels.len() == texts_field(t, "values"@).len(),
                complaint(
                    context,
                    "value_labels"@,
                    " must be empty or contain one label per value"@,
                ),
            ),
            unless(
                forall|i: int| 0 <= i < labels.len() ==> (#[trigger] labels[i]).len() > 0,
                complaint(context, "value_labels"@, " must not contain an empty label"@),
            ),
        )
    }
}

/// The rules for the options of a filter: a plain dialect has `values` and
/// labels for them. In the others `options` holds objects; `values` holds
/// strings, only in the release that knew it.
pub open spec fn filter_options_fault(t: LuaTable, context: Seq<char>, dialect: Dialect) -> Option<
    Fault,
> {
    if dialect.localized() {
        localized_options_fault(t, context, dialect)
    } else {
        first(
            required_texts_fault(t, "values"@, context),
            optional_texts_fault(t, "value_labels"@, context),
        )
    }
}

pub open spec fn localized_options_fault(
    t: LuaTable,
    context: Seq<char>,
    dialect: Dialect,
) -> Option<Fault> {
    let options = table_field(t, "options"@);
    let values = table_field(t, "values"@);
    first(
        optional_table_fault(t, "options"@, context),
        first(
            optional_table_fault(t, "values"@, context),
            if options is Some && values is Some {
                Some(
                    Fault::Internal(
                        context + ".options and legacy "@ + context
                            + ".values cannot both be present"@,
                    ),
                )
            } else if options is Some {
                first_of(
                    options->0.sequence@.len() as int,
                    option_faults(options->0.sequence@, context),
                )
            } else if values is Some {
                first(
                    unless(
                        dialect is Localized3,
                        Fault::Internal(
                            context + ".values is only supported for entry_version 3; use "@
                                + context + ".options"@,
                        ),
                    ),
                    text_items_fault(values->0.sequence@, "values"@, context),
                )
            } else {
                Some(complaint(context, "options"@, " required"@))
            },
        ),
    )
}

pub open spec fn filter_options_value(
    dialect: Dialect,
    t: LuaTable,
) -> Seq<DiscoverFilterOptionView> {
    if dialect.localized() {
        localized_options_value(t)
    } else {
        labelled_options(texts_field(t, "values"@), texts_field(t, "value_labels"@))
    }
}

pub open spec fn localized_options_value(t: LuaTable) -> Seq<DiscoverFilterOptionView> {
    match table_field(t, "options"@) {
        Some(options) => Seq::new(
            options.sequence@.len(),
            |i: int| option_value(options.sequence@[i]),
        ),
        None => match table_field(t, "values"@) {
            Some(values) => plain_options(text_items(values.sequence@)),
            None => Seq::empty(),
        },
    }
}

/// The field that the options of a filter stand in.
pub open spec fn option_field(dialect: Dialect, t: LuaTable) -> Seq<char> {
    if dialect.localized() && table_field(t, "options"@) is Some {
        "options"@
    } else {
        "values"@
    }
}

fn parse_option(
    item: &LuaValue,
    context: &str,
    i: usize,
) -> (r: Result<DiscoverFilterOption, Error>)
    requires
        i < usize::MAX,
    ensures
        outcome(r, option_fault(*item, context@, i as int), option_value(*item)),
{
    let options = place_of(context, "options");
    let place = number_entry(options.as_str(), i);
    match item {
        LuaValue::Table(t) => {
            let value = require_string(t, "value", place.as_str())?;
            let label = require_localized_text(t, "label", place.as_str())?;
            Ok(DiscoverFilterOption { value, label })
        },
        other => {
            let mut text = place;
            text.append(" must be an object: ");
            let why = explain_kind(other, "table");
            text.append(why.as_str());
            Err(Error::Internal(text))
        },
    }
}

fn parse_options(items: &Vec<LuaValue>, context: &str) -> (r: Result<
    Vec<DiscoverFilterOption>,
    Error,
>)
    ensures
        outcome_list(
            r,
            first_of(items@.len() as int, option_faults(items@, context@)),
            Seq::new(items@.len(), |i: int| option_value(items@[i])),
        ),
{
    let mut out: Vec<DiscoverFilterOption> = Vec::new();
    let ghost value = |i: int| option_value(items@[i]);
    let mut i: usize = 0;
    while i < items.len()
        invariant
            i <= items.len(),
            first_of(i as int, option_faults(items@, context@)) is None,
            value == (|i: int| option_value(items@[i])),
            views(out@) == Seq::new(i as nat, value),
        decreases items.len() - i,
    {
        proof {
            if option_fault(items@[i as int], context@, i as int) is Some {
                lemma_first_of_found(
                    i as int,
                    items@.len() as int,
                    option_faults(items@, context@),
                );
            }
        }
        let option = parse_option(&items[i], context, i)?;
        proof {
            lemma_views_push(out@, option);
            assert(Seq::new((i + 1) as nat, value) =~= Seq::new(i as nat, value).push(
                value(i as int),
            ));
        }
        out.push(option);
        i = i + 1;
    }
    Ok(out)
}

fn parse_values(items: &Vec<LuaValue>, context: &str) -> (r: Result<
    Vec<DiscoverFilterOption>,
    Error,
>)
    ensures
        outcome_list(
            r,
            text_items_fault(items@, "values"@, context@),
            plain_options(text_items(items@)),
        ),
{
    let values = crate::plugin::lua::string_sequence(items, "values", context)?;
    Ok(options_of(&values))
}

fn label_options(values: &Vec<String>, labels: &Vec<String>) -> (options: Vec<DiscoverFilterOption>)
    ensures
        views(options@) == labelled_options(views(values@), views(labels@)),
{
    let ghost value = |i: int|
        DiscoverFilterOptionView {
            value: views(values@)[i],
            label: LocalizedView::Raw(
                if i < labels@.len() {
                    views(labels@)[i]
                } else {
                    views(values@)[i]
                },
            ),
        };
    let mut options: Vec<DiscoverFilterOption> = Vec::new();
    let mut i: usize = 0;
    assert(views(options@) =~= Seq::new(0, value));
    while i < values.len()
        invariant
            i <= values@.len(),
            value == (|i: int|
                DiscoverFilterOptionView {
                    value: views(values@)[i],
                    label: LocalizedView::Raw(
                        if i < labels@.len() {
                            views(labels@)[i]
                        } else {
                            views(values@)[i]
                        },
                    ),
                }),
            views(options@) == Seq::new(i as nat, value),
        decreases values@.len() - i,
    {
        assert(views(values@)[i as int] == values@[i as int]@);
        let shown = if i < labels.len() {
            assert(views(labels@)[i as int] == labels@[i as int]@);
            LocalizedText::raw(labels[i].as_str())
        } else {
            LocalizedText::raw(values[i].as_str())
        };
        let option = DiscoverFilterOption { value: values[i].clone(), label: shown };
        proof {
            lemma_views_push(options@, option);
            assert(Seq::new((i + 1) as nat, value) =~= Seq::new(i as nat, value).push(
                value(i as int),
            ));
        }
        options.push(option);
        i = i + 1;
    }
    assert(Seq::new(values@.len(), value) =~= labelled_options(views(values@), views(labels@)));
    options
}

/// Checks the labels of a plain dialect.
fn check_value_labels(dialect: Dialect, t: &LuaTable, context: &str) -> (r: Result<(), Error>)
    requires
        filter_options_fault(*t, context@, dialect) is None,
    ensures
        outcome_check(r, value_labels_fault(dialect, *t, context@)),
{
    if dialect.is_localized() {
        return Ok(());
    }
    let values = require_string_sequence(t, "values", context)?;
    let labels = optional_string_sequence(t, "value_labels", context)?;
    let ghost all = texts_field(*t, "value_labels"@);
    assert(views(labels@).len() == labels@.len());
    assert(views(values@).len() == values@.len());
    if labels.len() != 0 && labels.len() != values.len() {
        return Err(
            complain(context, "value_labels", " must be empty or contain one label per value"),
        );
    }
    let mut i: usize = 0;
    while i < labels.len()
        invariant
            i <= labels@.len(),
            !dialect.localized(),
            views(labels@) == all,
            all == texts_field(*t, "value_labels"@),
            views(values@) == texts_field(*t, "values"@),
            all.len() == 0 || all.len() == views(values@).len(),
            forall|j: int| 0 <= j < i ==> (#[trigger] all[j]).len() > 0,
        decreases labels@.len() - i,
    {
        assert(all[i as int] == labels@[i as int]@);
        if labels[i].as_str().is_empty() {
            return Err(complain(context, "value_labels", " must not contain an empty label"));
        }
        i = i + 1;
    }
    Ok(())
}

/// Reads the options of a filter.
pub fn discover_filter_options(t: &LuaTable, context: &str, dialect: Dialect) -> (r: Result<
    (Vec<DiscoverFilterOption>, &'static str),
    Error,
>)
    ensures
        match r {
            Ok((options, field)) => filter_options_fault(*t, context@, dialect) is None
                && views(options@) == filter_options_value(dialect, *t) && field@ == option_field(dialect, *t),
            Err(e) => filter_options_fault(*t, context@, dialect) == Some(e@),
        },
{
    if !dialect.is_localized() {
        let values = require_string_sequence(t, "values", context)?;
        let labels = optional_string_sequence(t, "value_labels", context)?;
        return Ok((label_options(&values, &labels), "values"));
    }
    let options = optional_table(t, "options", context)?;
    let values = optional_table(t, "values", context)?;
    match (options, values) {
        (Some(_), Some(_)) => {
            let mut text = context.to_owned();
            text.append(".options and legacy ");
            text.append(context);
            text.append(".values cannot both be present");
            Err(Error::Internal(text))
        },
        (Some(options), None) => {
            let out = parse_options(&options.sequence, context)?;
            Ok((out, "options"))
        },
        (None, Some(values)) => {
            if dialect != Dialect::Localized3 {
                let mut text = context.to_owned();
                text.append(".values is only supported for entry_version 3; use ");
                text.append(context);
                text.append(".options");
                return Err(Error::Internal(text));
            }
            let out = parse_values(&values.sequence, context)?;
            Ok((out, "values"))
        },
        (None, None) => Err(complain(context, "options", " required")),
    }
}

/// The values that a filter offers.
pub open spec fn values_of(options: Seq<DiscoverFilterOptionView>) -> Seq<Seq<char>> {
    options.map_values(|option: DiscoverFilterOptionView| option.value)
}

/// The values that the filters before place `i` offer.
pub open spec fn values_before(dialect: Dialect, items: Seq<LuaValue>, i: int) -> Seq<Seq<char>>
    decreases i,
{
    if i <= 0 {
        Seq::empty()
    } else {
        values_before(dialect, items, i - 1) + values_of(filter_options_value(dialect, items[i - 1]->Table_0))
    }
}

/// No value is empty, and none is offered twice.
pub open spec fn option_values_fault(
    used: Seq<Seq<char>>,
    values: Seq<Seq<char>>,
    context: Seq<char>,
    field: Seq<char>,
) -> Option<Fault> {
    first_of(values.len() as int, value_faults(used, values, context, field))
}

pub open spec fn value_faults(
    used: Seq<Seq<char>>,
    values: Seq<Seq<char>>,
    context: Seq<char>,
    field: Seq<char>,
) -> spec_fn(int) -> Option<Fault> {
    |i: int|
        first(
            unless(
                values[i].len() > 0,
                complaint(context, field, " must not contain an empty value"@),
            ),
            unless(
                !(used + values.take(i)).contains(values[i]),
                complaint(
                    context,
                    field,
                    " contains duplicate discover value '"@ + values[i] + "'"@,
                ),
            ),
        )
}

pub open spec fn filter_type(name: Seq<char>) -> Option<DiscoverFilterType> {
    if name == "select"@ {
        Some(DiscoverFilterType::Select)
    } else if name == "multi_select"@ {
        Some(DiscoverFilterType::MultiSelect)
    } else if name == "toggle"@ {
        Some(DiscoverFilterType::Toggle)
    } else {
        None
    }
}

pub open spec fn filter_id(item: LuaValue) -> Seq<char> {
    text_field(item->Table_0, "id"@)
}

pub open spec fn filter_ids(items: Seq<LuaValue>) -> Seq<Seq<char>> {
    items.map_values(|item: LuaValue| filter_id(item))
}

/// The rules for one filter, given the ids and values declared before it.
pub open spec fn one_filter_fault(
    t: LuaTable,
    context: Seq<char>,
    dialect: Dialect,
    ids: Seq<Seq<char>>,
    used: Seq<Seq<char>>,
) -> Option<Fault> {
    let id = text_field(t, "id"@);
    let name = text_field(t, "type"@);
    let toggle = filter_type(name) == Some(DiscoverFilterType::Toggle);
    let options = filter_options_value(dialect, t);
    let field = option_field(dialect, t);
    first(
        required_text_fault(t, "id"@, context),
        first(
            required_label_fault(dialect, t, "title"@, context),
            first(
                unless(
                    id.len() > 0 && label(dialect, t, "title"@).text().len() > 0,
                    Fault::Internal(context + ".id and "@ + context + ".title must not be empty"@),
                ),
                first(
                    unless(
                        !ids.contains(id),
                        complaint(context, "id"@, " '"@ + id + "' is declared more than once"@),
                    ),
                    first(
                        required_text_fault(t, "type"@, context),
                        first(
                            unless(
                                filter_type(name) is Some,
                                complaint(
                                    context,
                                    "type"@,
                                    " '"@ + name
                                        + "' must be select, multi_select, or toggle"@,
                                ),
                            ),
                            first(
                                filter_options_fault(t, context, dialect),
                                first(
                                    unless(
                                        options.len() > 0,
                                        complaint(context, field, " must not be empty"@),
                                    ),
                                    first(
                                        unless(
                                            toggle ==> options.len() == 1,
                                            complaint(
                                                context,
                                                field,
                                                " must contain exactly one value for a toggle"@,
                                            ),
                                        ),
                                        first(
                                            value_labels_fault(dialect, t, context),
                                            first(
                                                option_values_fault(
                                                    used,
                                                    values_of(options),
                                                    context,
                                                    field,
                                                ),
                                                filter_texts_fault(dialect, t, context, toggle),
                                            ),
                                        ),
                                    ),
                                ),
                            ),
                        ),
                    ),
                ),
            ),
        ),
    )
}

/// The rules for the texts of a filter.
pub open spec fn filter_texts_fault(
    dialect: Dialect,
    t: LuaTable,
    context: Seq<char>,
    toggle: bool,
) -> Option<Fault> {
    first(
        label_fault(dialect, t, "description"@, context),
        first(
            label_fault(dialect, t, "confirmation"@, context),
            unless(
                label(dialect, t, "confirmation"@).text().len() > 0 ==> toggle,
                complaint(context, "confirmation"@, " is only supported for toggle filters"@),
            ),
        ),
    )
}

pub open spec fn filter_fault(items: Seq<LuaValue>, dialect: Dialect, i: int) -> Option<Fault> {
    let context = numbered("info().capabilities.discover.filters"@, i);
    match items[i] {
        LuaValue::Table(t) => one_filter_fault(
            t,
            context,
            dialect,
            filter_ids(items).take(i),
            values_before(dialect, items, i),
        ),
        other => Some(Fault::Internal(context + " must be a table: "@ + not_a(other, "table"@))),
    }
}

pub open spec fn filter_value(dialect: Dialect, item: LuaValue) -> DiscoverFilterView {
    let t = item->Table_0;
    DiscoverFilterView {
        id: text_field(t, "id"@),
        title: label(dialect, t, "title"@),
        ty: filter_type(text_field(t, "type"@))->0,
        options: filter_options_value(dialect, t),
        description: label(dialect, t, "description"@),
        confirmation: label(dialect, t, "confirmation"@),
    }
}

pub open spec fn filter_faults(items: Seq<LuaValue>, dialect: Dialect) -> spec_fn(int) -> Option<
    Fault,
> {
    |i: int| filter_fault(items, dialect, i)
}

pub open spec fn filters_fault(discover: LuaTable, dialect: Dialect) -> Option<Fault> {
    first(
        optional_table_fault(discover, "filters"@, "info().capabilities.discover"@),
        match table_field(discover, "filters"@) {
            Some(t) => first_of(t.sequence@.len() as int, filter_faults(t.sequence@, dialect)),
            None => None,
        },
    )
}

pub open spec fn filters_value(
    dialect: Dialect,
    discover: LuaTable,
) -> Option<Seq<DiscoverFilterView>> {
    match table_field(discover, "filters"@) {
        Some(t) => Some(Seq::new(t.sequence@.len(), |i: int| filter_value(dialect, t.sequence@[i]))),
        None => None,
    }
}

/// Adds the values of a filter to those in use.
fn claim_option_values(
    used: &mut Vec<String>,
    options: &Vec<DiscoverFilterOption>,
    context: &str,
    field: &str,
) -> (r: Result<(), Error>)
    ensures
        outcome_check(
            r,
            option_values_fault(
                views(old(used)@),
                values_of(views(options@)),
                context@,
                field@,
            ),
        ),
        r is Ok ==> views(final(used)@) == views(old(used)@) + values_of(views(options@)),
{
    let ghost before = views(used@);
    let ghost values = values_of(views(options@));
    let ghost faults = value_faults(before, values, context@, field@);
    let mut i: usize = 0;
    assert(before + values.take(0) =~= before);
    while i < options.len()
        invariant
            i <= options.len(),
            before == views(old(used)@),
            values == values_of(views(options@)),
            faults == value_faults(before, values, context@, field@),
            first_of(i as int, faults) is None,
            views(used@) == before + values.take(i as int),
        decreases options.len() - i,
    {
        let value = &options[i].value;
        proof {
            assert(values[i as int] == value@);
            if faults(i as int) is Some {
                lemma_first_of_found(i as int, values.len() as int, faults);
            }
        }
        if value.as_str().is_empty() {
            return Err(complain(context, field, " must not contain an empty value"));
        }
        if holds_text(used, value.as_str()) {
            let mut text = " contains duplicate discover value '".to_owned();
            text.append(value.as_str());
            text.append("'");
            return Err(complain(context, field, text.as_str()));
        }
        proof {
            lemma_views_push(used@, *value);
            assert(before + values.take(i + 1) =~= (before + values.take(i as int)).push(value@));
        }
        used.push(value.clone());
        i = i + 1;
    }
    assert(values.take(i as int) =~= values);
    Ok(())
}

fn parse_filter_type(name: &str) -> (r: Option<DiscoverFilterType>)
    ensures
        r == filter_type(name@),
        r == Some(DiscoverFilterType::Select) <==> name@ == "select"@,
        r == Some(DiscoverFilterType::MultiSelect) <==> name@ == "multi_select"@,
        r == Some(DiscoverFilterType::Toggle) <==> name@ == "toggle"@,
{
    proof {
        lemma_type_names();
    }
    if same(name, "select") {
        Some(DiscoverFilterType::Select)
    } else if same(name, "multi_select") {
        Some(DiscoverFilterType::MultiSelect)
    } else if same(name, "toggle") {
        Some(DiscoverFilterType::Toggle)
    } else {
        None
    }
}

fn parse_filter(
    t: &LuaTable,
    context: &str,
    dialect: Dialect,
    ids: &mut Vec<String>,
    used: &mut Vec<String>,
) -> (r: Result<DiscoverFilter, Error>)
    ensures
        outcome(
            r,
            one_filter_fault(*t, context@, dialect, views(old(ids)@), views(old(used)@)),
            filter_value(dialect, LuaValue::Table(*t)),
        ),
        r is Ok ==> views(final(ids)@) == views(old(ids)@).push(text_field(*t, "id"@)),
        r is Ok ==> views(final(used)@) == views(old(used)@) + values_of(filter_options_value(dialect, *t)),
{
    let id = require_string(t, "id", context)?;
    let title = require_label(dialect, t, "title", context)?;
    if id.as_str().is_empty() || title.text().is_empty() {
        let mut text = context.to_owned();
        text.append(".id and ");
        text.append(context);
        text.append(".title must not be empty");
        return Err(Error::Internal(text));
    }
    if holds_text(ids, id.as_str()) {
        let mut text = " '".to_owned();
        text.append(id.as_str());
        text.append("' is declared more than once");
        return Err(complain(context, "id", text.as_str()));
    }
    proof {
        lemma_views_push(ids@, id);
    }
    ids.push(id.clone());
    let name = require_string(t, "type", context)?;
    let ty = match parse_filter_type(name.as_str()) {
        Some(ty) => ty,
        None => {
            let mut text = " '".to_owned();
            text.append(name.as_str());
            text.append("' must be select, multi_select, or toggle");
            return Err(complain(context, "type", text.as_str()));
        },
    };
    let (options, field) = discover_filter_options(t, context, dialect)?;
    if options.len() == 0 {
        return Err(complain(context, field, " must not be empty"));
    }
    if ty == DiscoverFilterType::Toggle && options.len() != 1 {
        return Err(complain(context, field, " must contain exactly one value for a toggle"));
    }
    check_value_labels(dialect, t, context)?;
    claim_option_values(used, &options, context, field)?;
    let description = read_label(dialect, t, "description", context)?;
    let confirmation = read_label(dialect, t, "confirmation", context)?;
    if !confirmation.text().is_empty() && ty != DiscoverFilterType::Toggle {
        return Err(complain(context, "confirmation", " is only supported for toggle filters"));
    }
    Ok(DiscoverFilter { id, title, ty, options, description, confirmation })
}

/// Reads the optional list of filters.
pub fn optional_discover_filters(discover: &LuaTable, dialect: Dialect) -> (r: Result<
    Option<Vec<DiscoverFilter>>,
    Error,
>)
    ensures
        match r {
            Ok(Some(filters)) => filters_fault(*discover, dialect) is None && filters_value(
                dialect,
                *discover,
            ) == Some(views(filters@)),
            Ok(None) => filters_fault(*discover, dialect) is None && filters_value(dialect, *discover)
                is None,
            Err(e) => filters_fault(*discover, dialect) == Some(e@),
        },
{
    match optional_table(discover, "filters", "info().capabilities.discover")? {
        None => Ok(None),
        Some(table) => {
            let items = &table.sequence;
            let mut filters: Vec<DiscoverFilter> = Vec::new();
            let mut ids: Vec<String> = Vec::new();
            let mut used: Vec<String> = Vec::new();
            let ghost faults = filter_faults(items@, dialect);
            let ghost value = |i: int| filter_value(dialect, items@[i]);
            let mut i: usize = 0;
            assert(views(ids@) =~= filter_ids(items@).take(0));
            assert(views(used@) =~= values_before(dialect, items@, 0));
            while i < items.len()
                invariant
                    i <= items.len(),
                    faults == filter_faults(items@, dialect),
                    value == (|i: int| filter_value(dialect, items@[i])),
                    first_of(i as int, faults) is None,
                    views(filters@) == Seq::new(i as nat, value),
                    views(ids@) == filter_ids(items@).take(i as int),
                    views(used@) == values_before(dialect, items@, i as int),
                    filters_fault(*discover, dialect) == first_of(
                        items@.len() as int,
                        faults,
                    ),
                decreases items.len() - i,
            {
                proof {
                    if faults(i as int) is Some {
                        lemma_first_of_found(i as int, items@.len() as int, faults);
                    }
                }
                let context = number_entry("info().capabilities.discover.filters", i);
                let filter = match &items[i] {
                    LuaValue::Table(t) => parse_filter(
                        t,
                        context.as_str(),
                        dialect,
                        &mut ids,
                        &mut used,
                    )?,
                    other => {
                        let mut text = context;
                        text.append(" must be a table: ");
                        let why = explain_kind(other, "table");
                        text.append(why.as_str());
                        return Err(Error::Internal(text));
                    },
                };
                proof {
                    lemma_views_push(filters@, filter);
                    assert(Seq::new((i + 1) as nat, value) =~= Seq::new(i as nat, value).push(
                        value(i as int),
                    ));
                    assert(filter_ids(items@).take(i + 1) =~= filter_ids(items@).take(i as int).push(
                        filter_id(items@[i as int]),
                    ));
                }
                filters.push(filter);
                i = i + 1;
            }
            Ok(Some(filters))
        },
    }
}

/// All values that are offered, filter by filter.
pub open spec fn all_values(filters: Seq<DiscoverFilterView>) -> Seq<Seq<char>>
    decreases filters.len(),
{
    if filters.len() == 0 {
        Seq::empty()
    } else {
        all_values(filters.drop_last()) + values_of(filters.last().options)
    }
}

/// The filters of an accepted declaration have ids of their own, and no value
/// is offered twice, not even by two filters.
pub proof fn law_filters_are_distinct(discover: LuaTable, dialect: Dialect)
    requires
        filters_fault(discover, dialect) is None,
        filters_value(dialect, discover) is Some,
    ensures
        filters_value(dialect, discover)->0.map_values(
            |f: DiscoverFilterView| f.id,
        ).no_duplicates(),
        all_values(filters_value(dialect, discover)->0).no_duplicates(),
{
    let filters = filters_value(dialect, discover)->0;
    let items = table_field(discover, "filters"@)->0.sequence@;
    let faults = filter_faults(items, dialect);
    let ids = filter_ids(items);
    lemma_first_of_none(items.len() as int, faults);
    assert forall|i: int, j: int|
        0 <= i < ids.len() && 0 <= j < ids.len() && i != j implies ids[i] != ids[j] by {
        let low = if i < j {
            i
        } else {
            j
        };
        let high = if i < j {
            j
        } else {
            i
        };
        assert(faults(high) is None);
        assert(ids.take(high)[low] == ids[low]);
    }
    assert(filters.map_values(|f: DiscoverFilterView| f.id) =~= ids);
    lemma_values_are_distinct(items, dialect, items.len() as int);
    assert(filters.take(items.len() as int) =~= filters);
    lemma_all_values(filters, items, dialect, items.len() as int);
}

proof fn lemma_all_values(
    filters: Seq<DiscoverFilterView>,
    items: Seq<LuaValue>,
    dialect: Dialect,
    n: int,
)
    requires
        0 <= n <= items.len(),
        filters.len() == items.len(),
        forall|i: int| 0 <= i < items.len() ==> #[trigger] filters[i] == filter_value(dialect, items[i]),
    ensures
        all_values(filters.take(n)) == values_before(dialect, items, n),
    decreases n,
{
    if n > 0 {
        lemma_all_values(filters, items, dialect, n - 1);
        assert(filters.take(n).drop_last() =~= filters.take(n - 1));
        assert(filters.take(n).last() == filters[n - 1]);
    }
}

proof fn lemma_values_are_distinct(items: Seq<LuaValue>, dialect: Dialect, n: int)
    requires
        0 <= n <= items.len(),
        forall|i: int| 0 <= i < items.len() ==> #[trigger] filter_faults(items, dialect)(i) is None,
    ensures
        values_before(dialect, items, n).no_duplicates(),
    decreases n,
{
    if n > 0 {
        lemma_values_are_distinct(items, dialect, n - 1);
        assert(filter_faults(items, dialect)(n - 1) is None);
        let used = values_before(dialect, items, n - 1);
        let t = items[n - 1]->Table_0;
        let values = values_of(filter_options_value(dialect, t));
        let context = numbered("info().capabilities.discover.filters"@, n - 1);
        let checks = value_faults(used, values, context, option_field(dialect, t));
        lemma_first_of_none(values.len() as int, checks);
        let all = used + values;
        assert forall|i: int, j: int|
            0 <= i < all.len() && 0 <= j < all.len() && i != j implies all[i] != all[j] by {
            let low = if i < j {
                i
            } else {
                j
            };
            let high = if i < j {
                j
            } else {
                i
            };
            if high < used.len() {
                assert(used[low] != used[high]);
            } else {
                let k = high - used.len();
                assert(checks(k) is None);
                let before = used + values.take(k);
                assert(before[low] == all[low]);
                assert(!before.contains(values[k]));
            }
        }
    }
}

// ---------------------------------------------------------------------------
// Selected values

/// How many of the options are selected.
pub open spec fn selected_count(
    options: Seq<DiscoverFilterOptionView>,
    selected: Seq<Seq<char>>,
) -> nat
    decreases options.len(),
{
    if options.len() == 0 {
        0
    } else {
        selected_count(options.drop_last(), selected) + if selected.contains(options.last().value) {
            1nat
        } else {
            0nat
        }
    }
}

/// Some filter offers the value.
pub open spec fn offers(filters: Seq<DiscoverFilterView>, value: Seq<char>) -> bool {
    exists|i: int|
        0 <= i < filters.len() && #[trigger] values_of(filters[i].options).contains(value)
}

pub open spec fn request_of(plugin: Seq<char>) -> Seq<char> {
    "source plugin '"@ + plugin + "'"@
}

pub open spec fn duplicate_faults(plugin: Seq<char>, selected: Seq<Seq<char>>) -> spec_fn(
    int,
) -> Option<Fault> {
    |i: int|
        unless(
            !selected.take(i).contains(selected[i]),
            Fault::InvalidArgument(
                request_of(plugin) + " discover filter value '"@ + selected[i] + "' is duplicated"@,
            ),
        )
}

pub open spec fn undeclared_faults(
    plugin: Seq<char>,
    filters: Seq<DiscoverFilterView>,
    selected: Seq<Seq<char>>,
) -> spec_fn(int) -> Option<Fault> {
    |i: int|
        unless(
            offers(filters, selected[i]),
            Fault::InvalidArgument(
                request_of(plugin) + " does not declare discover filter value '"@ + selected[i]
                    + "'"@,
            ),
        )
}

pub open spec fn crowded_faults(
    plugin: Seq<char>,
    filters: Seq<DiscoverFilterView>,
    selected: Seq<Seq<char>>,
) -> spec_fn(int) -> Option<Fault> {
    |i: int|
        unless(
            filters[i].ty == DiscoverFilterType::Select ==> selected_count(
                filters[i].options,
                selected,
            ) <= 1,
            Fault::InvalidArgument(
                request_of(plugin) + " discover filter '"@ + filters[i].id + "' accepts one value"@,
            ),
        )
}

/// Every value is selected once, is offered by some filter, and no select
/// filter has more than one of its values selected.
pub open spec fn selected_values_fault(
    plugin: Seq<char>,
    filters: Seq<DiscoverFilterView>,
    selected: Seq<Seq<char>>,
) -> Option<Fault> {
    first(
        first_of(selected.len() as int, duplicate_faults(plugin, selected)),
        first(
            first_of(selected.len() as int, undeclared_faults(plugin, filters, selected)),
            first_of(filters.len() as int, crowded_faults(plugin, filters, selected)),
        ),
    )
}

fn refuse(plugin: &str, before: &str, name: &str, after: &str) -> (error: Error)
    ensures
        error@ == Fault::InvalidArgument(request_of(plugin@) + before@ + name@ + after@),
{
    let mut text = "source plugin '".to_owned();
    text.append(plugin);
    text.append("'");
    text.append(before);
    text.append(name);
    text.append(after);
    Error::InvalidArgument(text)
}

fn offers_value(filters: &Vec<DiscoverFilter>, value: &str) -> (r: bool)
    ensures
        r == offers(views(filters@), value@),
{
    let mut i: usize = 0;
    while i < filters.len()
        invariant
            i <= filters.len(),
            forall|j: int|
                0 <= j < i ==> !(#[trigger] values_of(views(filters@)[j].options)).contains(value@),
        decreases filters.len() - i,
    {
        let options = &filters[i].options;
        let mut k: usize = 0;
        while k < options.len()
            invariant
                i < filters.len(),
                k <= options.len(),
                *options == filters@[i as int].options,
                forall|j: int| 0 <= j < k ==> #[trigger] options@[j].value@ != value@,
            decreases options.len() - k,
        {
            if same(options[k].value.as_str(), value) {
                proof {
                    let offered = values_of(views(filters@)[i as int].options);
                    assert(offered[k as int] == value@);
                    assert(offered.contains(value@));
                }
                return true;
            }
            k = k + 1;
        }
        proof {
            let offered = values_of(views(filters@)[i as int].options);
            if offered.contains(value@) {
                let j = choose|j: int| 0 <= j < offered.len() && offered[j] == value@;
                assert(options@[j].value@ == value@);
            }
        }
        i = i + 1;
    }
    false
}

fn count_selected(options: &Vec<DiscoverFilterOption>, selected: &Vec<String>) -> (n: usize)
    ensures
        n == selected_count(views(options@), views(selected@)),
{
    let mut n: usize = 0;
    let mut i: usize = 0;
    while i < options.len()
        invariant
            i <= options.len(),
            n <= i,
            n == selected_count(views(options@).take(i as int), views(selected@)),
        decreases options.len() - i,
    {
        proof {
            let next = views(options@).take(i + 1);
            assert(next.drop_last() =~= views(options@).take(i as int));
            assert(next.last() == options@[i as int]@);
        }
        if holds_text(selected, options[i].value.as_str()) {
            n = n + 1;
        }
        i = i + 1;
    }
    assert(views(options@).take(i as int) =~= views(options@));
    n
}

/// Checks the filter values of a search request.
pub fn validate_discover_filter_values(
    plugin: &str,
    filters: &Vec<DiscoverFilter>,
    selected: &Vec<String>,
) -> (r: Result<(), Error>)
    ensures
        outcome_check(r, selected_values_fault(plugin@, views(filters@), views(selected@))),
{
    let ghost duplicates = duplicate_faults(plugin@, views(selected@));
    let ghost undeclared = undeclared_faults(plugin@, views(filters@), views(selected@));
    let ghost crowded = crowded_faults(plugin@, views(filters@), views(selected@));
    let mut seen: Vec<String> = Vec::new();
    let mut i: usize = 0;
    assert(views(seen@) =~= views(selected@).take(0));
    while i < selected.len()
        invariant
            i <= selected.len(),
            duplicates == duplicate_faults(plugin@, views(selected@)),
            first_of(i as int, duplicates) is None,
            views(seen@) == views(selected@).take(i as int),
        decreases selected.len() - i,
    {
        proof {
            if duplicates(i as int) is Some {
                lemma_first_of_found(i as int, selected@.len() as int, duplicates);
            }
        }
        if holds_text(&seen, selected[i].as_str()) {
            return Err(
                refuse(plugin, " discover filter value '", selected[i].as_str(), "' is duplicated"),
            );
        }
        proof {
            lemma_views_push(seen@, selected@[i as int]);
            assert(views(selected@).take(i + 1) =~= views(selected@).take(i as int).push(
                selected@[i as int]@,
            ));
        }
        seen.push(selected[i].clone());
        i = i + 1;
    }
    let mut i: usize = 0;
    while i < selected.len()
        invariant
            i <= selected.len(),
            undeclared == undeclared_faults(plugin@, views(filters@), views(selected@)),
            first_of(selected@.len() as int, duplicate_faults(plugin@, views(selected@))) is None,
            first_of(i as int, undeclared) is None,
        decreases selected.len() - i,
    {
        proof {
            if undeclared(i as int) is Some {
                lemma_first_of_found(i as int, selected@.len() as int, undeclared);
            }
        }
        if !offers_value(filters, selected[i].as_str()) {
            return Err(
                refuse(
                    plugin,
                    " does not declare discover filter value '",
                    selected[i].as_str(),
                    "'",
                ),
            );
        }
        i = i + 1;
    }
    let mut i: usize = 0;
    while i < filters.len()
        invariant
            i <= filters.len(),
            crowded == crowded_faults(plugin@, views(filters@), views(selected@)),
            first_of(selected@.len() as int, duplicate_faults(plugin@, views(selected@))) is None,
            first_of(
                selected@.len() as int,
                undeclared_faults(plugin@, views(filters@), views(selected@)),
            ) is None,
            first_of(i as int, crowded) is None,
        decreases filters.len() - i,
    {
        proof {
            if crowded(i as int) is Some {
                lemma_first_of_found(i as int, filters@.len() as int, crowded);
            }
        }
        if filters[i].ty == DiscoverFilterType::Select && count_selected(
            &filters[i].options,
            selected,
        ) > 1 {
            return Err(
                refuse(plugin, " discover filter '", filters[i].id.as_str(), "' accepts one value"),
            );
        }
        i = i + 1;
    }
    Ok(())
}

/// A search request is accepted exactly if no value is selected twice, every
/// value is offered, and each select filter has at most one value selected.
pub proof fn law_selected_values_accepted(
    plugin: Seq<char>,
    filters: Seq<DiscoverFilterView>,
    selected: Seq<Seq<char>>,
)
    ensures
        selected_values_fault(plugin, filters, selected) is None <==> {
            &&& selected.no_duplicates()
            &&& forall|i: int| 0 <= i < selected.len() ==> offers(filters, #[trigger] selected[i])
            &&& forall|i: int|
                0 <= i < filters.len() && (#[trigger] filters[i]).ty == DiscoverFilterType::Select
                    ==> selected_count(filters[i].options, selected) <= 1
        },
{
    let duplicates = duplicate_faults(plugin, selected);
    let undeclared = undeclared_faults(plugin, filters, selected);
    let crowded = crowded_faults(plugin, filters, selected);
    lemma_first_of_none(selected.len() as int, duplicates);
    lemma_first_of_none(selected.len() as int, undeclared);
    lemma_first_of_none(filters.len() as int, crowded);
    if selected_values_fault(plugin, filters, selected) is None {
        assert forall|i: int, j: int|
            0 <= i < selected.len() && 0 <= j < selected.len() && i != j implies selected[i]
            != selected[j] by {
            let low = if i < j { i } else { j };
            let high = if i < j { j } else { i };
            assert(duplicates(high) is None);
            assert(selected.take(high)[low] == selected[low]);
        }
        assert forall|i: int| 0 <= i < selected.len() implies offers(
            filters,
            #[trigger] selected[i],
        ) by {
            assert(undeclared(i) is None);
        }
        assert forall|i: int|
            0 <= i < filters.len() && (#[trigger] filters[i]).ty
                == DiscoverFilterType::Select implies selected_count(filters[i].options, selected)
            <= 1 by {
            assert(crowded(i) is None);
        }
    } else {
        if first_of(selected.len() as int, duplicates) is Some {
            let i = choose|i: int| 0 <= i < selected.len() && (#[trigger] duplicates(i)) is Some;
            let j = choose|j: int| 0 <= j < i && selected.take(i)[j] == selected[i];
            assert(selected[j] == selected[i]);
        } else if first_of(selected.len() as int, undeclared) is Some {
            let i = choose|i: int| 0 <= i < selected.len() && (#[trigger] undeclared(i)) is Some;
            assert(!offers(filters, selected[i]));
        } else {
            let i = choose|i: int| 0 <= i < filters.len() && (#[trigger] crowded(i)) is Some;
            assert(filters[i].ty == DiscoverFilterType::Select);
        }
    }
}

// ---------------------------------------------------------------------------
// Laws on declared sorts and filters

proof fn lemma_type_names()
    ensures
        "select"@ != "multi_select"@,
        "multi_select"@ != "toggle"@,
        "select"@ != "toggle"@,
{
    reveal_strlit("select");
    reveal_strlit("multi_select");
    reveal_strlit("toggle");
    assert("select"@.len() != "multi_select"@.len());
    assert("toggle"@.len() != "multi_select"@.len());
    assert("select"@[0] != "toggle"@[0]);
}

/// The list of declared entries under a key.
pub open spec fn listed(discover: LuaTable, key: Seq<char>) -> Seq<LuaValue> {
    match discover.field(key) {
        LuaValue::Table(list) => list.sequence@,
        _ => Seq::empty(),
    }
}

/// A loaded filter has the type that its declaration names, the id and the texts
/// that it gives under their keys, and at least one option.
pub proof fn law_loaded_filter(discover: LuaTable, dialect: Dialect, i: int)
    requires
        filters_fault(discover, dialect) is None,
        0 <= i < listed(discover, "filters"@).len(),
    ensures
        filters_value(dialect, discover) matches Some(filters) && filters.len() == listed(
            discover,
            "filters"@,
        ).len() && (listed(discover, "filters"@)[i] matches LuaValue::Table(t) && {
            let f = filters[i];
            &&& f.ty is Select <==> t.field("type"@).as_text() == Some("select"@)
            &&& f.ty is MultiSelect <==> t.field("type"@).as_text() == Some("multi_select"@)
            &&& f.ty is Toggle <==> t.field("type"@).as_text() == Some("toggle"@)
            &&& t.field("id"@).as_text() == Some(f.id)
            &&& f.id.len() > 0
            &&& f.title == label(dialect, t, "title"@)
            &&& f.title.text().len() > 0
            &&& f.description == label(dialect, t, "description"@)
            &&& f.confirmation == label(dialect, t, "confirmation"@)
            &&& f.options.len() > 0
            &&& f.ty is Toggle ==> f.options.len() == 1
            &&& f.confirmation.text().len() > 0 ==> f.ty is Toggle
            &&& forall|k: int|
                0 <= k < f.options.len() ==> (#[trigger] f.options[k]).value.len() > 0
        }),
{
    lemma_type_names();
    let items = listed(discover, "filters"@);
    let faults = filter_faults(items, dialect);
    lemma_first_of_none(items.len() as int, faults);
    assert(faults(i) is None);
    if let LuaValue::Table(t) = items[i] {
        let options = filter_options_value(dialect, t);
        let context = numbered("info().capabilities.discover.filters"@, i);
        let checks = value_faults(
            values_before(dialect, items, i),
            values_of(options),
            context,
            option_field(dialect, t),
        );
        lemma_first_of_none(values_of(options).len() as int, checks);
        assert forall|k: int| 0 <= k < options.len() implies (#[trigger] options[k]).value.len()
            > 0 by {
            assert(checks(k) is None);
            assert(values_of(options)[k] == options[k].value);
        }
    }
}

/// The options of a loaded filter come in the order of their declaration. An
/// object gives a value and a label under their keys. A bare value of a plugin
/// that marks texts is its own label; that of a plain plugin has the label that
/// stands beside it, or none of its own.
pub proof fn law_loaded_options(dialect: Dialect, t: LuaTable, context: Seq<char>, k: int)
    requires
        filter_options_fault(t, context, dialect) is None,
        0 <= k < filter_options_value(dialect, t).len(),
    ensures
        ({
            let options = filter_options_value(dialect, t);
            let o = options[k];
            &&& dialect.localized() ==> (t.field("options"@) matches LuaValue::Table(list) ==> {
                &&& options.len() == list.sequence@.len()
                &&& list.sequence@[k] matches LuaValue::Table(row) && row.field("value"@).as_text()
                    == Some(o.value) && o.label == localized_field(row, "label"@)
                    && o.label.text().len() > 0
            })
            &&& !dialect.localized() || !(t.field("options"@) is Table) ==> (t.field(
                "values"@,
            ) matches LuaValue::Table(list) && options.len() == list.sequence@.len()
                && list.sequence@[k].as_text() == Some(o.value))
            &&& dialect.localized() && !(t.field("options"@) is Table) ==> o.label
                == LocalizedView::Raw(o.value) && dialect is Localized3
            &&& !dialect.localized() ==> (t.field("value_labels"@) matches LuaValue::Table(labels)
                ==> (k < labels.sequence@.len() ==> Some(o.label.text())
                == labels.sequence@[k].as_text()) && (k >= labels.sequence@.len() ==> o.label
                == LocalizedView::Raw(o.value)))
            &&& !dialect.localized() && t.field("value_labels"@) is Nil ==> o.label
                == LocalizedView::Raw(o.value)
        }),
{
    crate::plugin::lua::law_string_lists(t, "values"@, context);
    crate::plugin::lua::law_string_lists(t, "value_labels"@, context);
    if dialect.localized() {
        if let LuaValue::Table(list) = t.field("options"@) {
            let checks = option_faults(list.sequence@, context);
            lemma_first_of_none(list.sequence@.len() as int, checks);
            assert(checks(k) is None);
        } else if let LuaValue::Table(list) = t.field("values"@) {
            crate::plugin::lua::law_string_lists(t, "values"@, context);
            lemma_values_are_texts(list.sequence@, context);
        }
    }
}

proof fn lemma_values_are_texts(items: Seq<LuaValue>, context: Seq<char>)
    requires
        text_items_fault(items, "values"@, context) is None,
    ensures
        forall|i: int| 0 <= i < items.len() ==> (#[trigger] items[i]).as_text() is Some,
{
    let fault = |i: int|
        unless(
            items[i].as_text() is Some,
            Fault::Internal(
                numbered(at(context, "values"@), i) + " must be a string: "@
                    + crate::plugin::lua::not_text(items[i]),
            ),
        );
    lemma_first_of_none(items.len() as int, fault);
    assert forall|i: int| 0 <= i < items.len() implies (#[trigger] items[i]).as_text() is Some by {
        assert(fault(i) is None);
    }
}

/// A loaded sort has the key and the label that its declaration gives under
/// their keys, and neither is empty.
pub proof fn law_loaded_sort(discover: LuaTable, dialect: Dialect, i: int)
    requires
        sorts_fault(dialect, discover) is None,
        0 <= i < listed(discover, "sorts"@).len(),
    ensures
        sorts_value(dialect, discover).len() == listed(discover, "sorts"@).len(),
        listed(discover, "sorts"@)[i] matches LuaValue::Table(t) && {
            let s = sorts_value(dialect, discover)[i];
            &&& t.field("key"@).as_text() == Some(s.key)
            &&& s.label == label(dialect, t, "label"@)
            &&& s.key.len() > 0 && s.label.text().len() > 0
        },
{
    let items = listed(discover, "sorts"@);
    lemma_first_of_none(items.len() as int, sort_faults(dialect, items));
    assert(sort_faults(dialect, items)(i) is None);
}

/// The sorts of a plugin are accepted exactly where they are a list of tables,
/// each with a key and a label that are not empty.
pub proof fn law_sorts_accepted(discover: LuaTable, dialect: Dialect)
    ensures
        sorts_fault(dialect, discover) is None <==> (discover.field("sorts"@) is Nil
            || discover.field("sorts"@) is Table) && forall|i: int|
            0 <= i < listed(discover, "sorts"@).len() ==> (#[trigger] listed(
                discover,
                "sorts"@,
            )[i] matches LuaValue::Table(t) && t.field("key"@).as_text() is Some && t.field(
                "key"@,
            ).as_text()->0.len() > 0 && required_label_fault(dialect, t, "label"@, ""@) is None
                && label(dialect, t, "label"@).text().len() > 0),
{
    let items = listed(discover, "sorts"@);
    let faults = sort_faults(dialect, items);
    lemma_first_of_none(items.len() as int, faults);
    assert forall|i: int| 0 <= i < items.len() implies (faults(i) is None <==> (
    #[trigger] items[i] matches LuaValue::Table(t) && t.field("key"@).as_text() is Some && t.field(
        "key"@,
    ).as_text()->0.len() > 0 && required_label_fault(dialect, t, "label"@, ""@) is None && label(
        dialect,
        t,
        "label"@,
    ).text().len() > 0)) by {
        if let LuaValue::Table(t) = items[i] {
            let context = numbered("info().capabilities.discover.sorts"@, i);
            labels::law_labels(dialect, t, "label"@, context);
            labels::law_labels(dialect, t, "label"@, ""@);
            crate::plugin::lua::law_localized_texts(t, "label"@, context);
            crate::plugin::lua::law_localized_texts(t, "label"@, ""@);
        }
    }
    if sorts_fault(dialect, discover) is None {
        assert forall|i: int| 0 <= i < items.len() implies (
        #[trigger] items[i] matches LuaValue::Table(t) && t.field("key"@).as_text() is Some
            && t.field("key"@).as_text()->0.len() > 0 && required_label_fault(
            dialect,
            t,
            "label"@,
            ""@,
        ) is None && label(dialect, t, "label"@).text().len() > 0) by {
            assert(faults(i) is None);
        }
    }
}

/// A filter is accepted exactly where its declaration is complete: an id of its
/// own, a title, one of the three types, options with values of their own, one
/// only for a toggle, and a confirmation for a toggle only.
pub proof fn law_filter_accepted(
    t: LuaTable,
    context: Seq<char>,
    dialect: Dialect,
    ids: Seq<Seq<char>>,
    used: Seq<Seq<char>>,
)
    ensures
        one_filter_fault(t, context, dialect, ids, used) is None <==> {
            let name = t.field("type"@).as_text();
            let options = filter_options_value(dialect, t);
            let values = values_of(options);
            &&& t.field("id"@).as_text() is Some && t.field("id"@).as_text()->0.len() > 0
            &&& !ids.contains(t.field("id"@).as_text()->0)
            &&& required_label_fault(dialect, t, "title"@, context) is None
            &&& label(dialect, t, "title"@).text().len() > 0
            &&& name == Some("select"@) || name == Some("multi_select"@) || name == Some("toggle"@)
            &&& filter_options_fault(t, context, dialect) is None
            &&& options.len() > 0
            &&& name == Some("toggle"@) ==> options.len() == 1
            &&& value_labels_fault(dialect, t, context) is None
            &&& forall|k: int|
                0 <= k < values.len() ==> (#[trigger] values[k]).len() > 0 && !(used + values.take(
                    k,
                )).contains(values[k])
            &&& label_fault(dialect, t, "description"@, context) is None
            &&& label_fault(dialect, t, "confirmation"@, context) is None
            &&& label(dialect, t, "confirmation"@).text().len() > 0 ==> name == Some("toggle"@)
        },
{
    lemma_type_names();
    let values = values_of(filter_options_value(dialect, t));
    let checks = value_faults(used, values, context, option_field(dialect, t));
    lemma_first_of_none(values.len() as int, checks);
    if option_values_fault(used, values, context, option_field(dialect, t)) is None {
        assert forall|k: int| 0 <= k < values.len() implies (#[trigger] values[k]).len() > 0 && !(
        used + values.take(k)).contains(values[k]) by {
            assert(checks(k) is None);
        }
    } else {
        let k = choose|k: int| 0 <= k < values.len() && (#[trigger] checks(k)) is Some;
        assert(values[k].len() == 0 || (used + values.take(k)).contains(values[k]));
    }
}

proof fn lemma_one_selected(options: Seq<DiscoverFilterOptionView>, selected: Seq<Seq<char>>)
    ensures
        selected_count(options, selected) == 0 <==> forall|a: int|
            0 <= a < options.len() ==> !selected.contains((#[trigger] options[a]).value),
        selected_count(options, selected) <= 1 <==> forall|a: int, b: int|
            0 <= a < b < options.len() ==> !(selected.contains((#[trigger] options[a]).value)
                && selected.contains((#[trigger] options[b]).value)),
    decreases options.len(),
{
    if options.len() > 0 {
        let front = options.drop_last();
        let n = options.len() - 1;
        lemma_one_selected(front, selected);
        assert forall|a: int| 0 <= a < n implies #[trigger] options[a] == front[a] by {}
        assert(options.last() == options[n]);
        if selected_count(options, selected) == 0 {
            assert forall|a: int| 0 <= a < options.len() implies !selected.contains(
                (#[trigger] options[a]).value,
            ) by {
                if a < n {
                    assert(!selected.contains(front[a].value));
                }
            }
        } else if !selected.contains(options[n].value) {
            let a = choose|a: int|
                0 <= a < front.len() && selected.contains((#[trigger] front[a]).value);
            assert(selected.contains(options[a].value));
        }
        if selected_count(options, selected) <= 1 {
            assert forall|a: int, b: int| 0 <= a < b < options.len() implies !(selected.contains(
                (#[trigger] options[a]).value,
            ) && selected.contains((#[trigger] options[b]).value)) by {
                if b < n {
                    assert(!(selected.contains(front[a].value) && selected.contains(
                        front[b].value,
                    )));
                } else if selected.contains(options[n].value) {
                    assert(!selected.contains(front[a].value));
                }
            }
        } else if selected_count(front, selected) > 1 {
            let (a, b) = choose|a: int, b: int|
                0 <= a < b < front.len() && selected.contains((#[trigger] front[a]).value)
                    && selected.contains((#[trigger] front[b]).value);
            assert(selected.contains(options[a].value) && selected.contains(options[b].value));
        } else {
            let a = choose|a: int|
                0 <= a < front.len() && selected.contains((#[trigger] front[a]).value);
            assert(selected.contains(options[a].value) && selected.contains(options[n].value));
        }
    }
}

/// What can be selected follows from what was declared: each value once and
/// offered by some filter, and of a filter that says "select" at most one.
/// Filters that say "multi_select" or "toggle" set no bound.
pub proof fn law_declared_filters_bound_selections(
    discover: LuaTable,
    dialect: Dialect,
    plugin: Seq<char>,
    selected: Seq<Seq<char>>,
)
    requires
        filters_fault(discover, dialect) is None,
        filters_value(dialect, discover) is Some,
    ensures
        selected_values_fault(plugin, filters_value(dialect, discover)->0, selected) is None <==> {
            let filters = filters_value(dialect, discover)->0;
            let rows = listed(discover, "filters"@);
            &&& selected.no_duplicates()
            &&& forall|i: int|
                0 <= i < selected.len() ==> offers(filters, #[trigger] selected[i])
            &&& forall|i: int, a: int, b: int|
                0 <= i < filters.len() && rows[i]->Table_0.field("type"@).as_text() == Some(
                    "select"@,
                ) && 0 <= a < b < filters[i].options.len() ==> !(selected.contains(
                    (#[trigger] filters[i].options[a]).value,
                ) && selected.contains((#[trigger] filters[i].options[b]).value))
        },
{
    let filters = filters_value(dialect, discover)->0;
    let rows = listed(discover, "filters"@);
    law_selected_values_accepted(plugin, filters, selected);
    assert forall|i: int| 0 <= i < filters.len() implies ((#[trigger] filters[i]).ty
        == DiscoverFilterType::Select <==> rows[i]->Table_0.field("type"@).as_text() == Some(
        "select"@,
    )) && (selected_count(filters[i].options, selected) <= 1 <==> forall|a: int, b: int|
        0 <= a < b < filters[i].options.len() ==> !(selected.contains(
            (#[trigger] filters[i].options[a]).value,
        ) && selected.contains((#[trigger] filters[i].options[b]).value))) by {
        law_loaded_filter(discover, dialect, i);
        lemma_one_selected(filters[i].options, selected);
    }
}

/// A value is offered exactly where some filter has an option with it.
pub proof fn law_offered_values(filters: Seq<DiscoverFilterView>, value: Seq<char>)
    ensures
        offers(filters, value) <==> exists|i: int, k: int|
            0 <= i < filters.len() && 0 <= k < filters[i].options.len() && (
            #[trigger] filters[i].options[k]).value == value,
{
    if offers(filters, value) {
        let i = choose|i: int|
            0 <= i < filters.len() && #[trigger] values_of(filters[i].options).contains(value);
        let values = values_of(filters[i].options);
        let k = choose|k: int| 0 <= k < values.len() && values[k] == value;
        assert(filters[i].options[k].value == value);
    }
    if exists|i: int, k: int|
        0 <= i < filters.len() && 0 <= k < filters[i].options.len() && (
        #[trigger] filters[i].options[k]).value == value {
        let (i, k) = choose|i: int, k: int|
            0 <= i < filters.len() && 0 <= k < filters[i].options.len() && (
            #[trigger] filters[i].options[k]).value == value;
        assert(values_of(filters[i].options)[k] == value);
        assert(values_of(filters[i].options).contains(value));
    }
}

/// The tags of a plugin without filters become one filter of which any number
/// can be selected, with a value for each tag in their order.
pub proof fn law_tags_become_a_filter(tags: Seq<Seq<char>>)
    ensures
        tags.len() == 0 ==> legacy_filter(tags).len() == 0,
        tags.len() > 0 ==> legacy_filter(tags).len() == 1
            && legacy_filter(tags)[0].ty is MultiSelect
            && legacy_filter(tags)[0].id == "tags"@ && legacy_filter(tags)[0].title.text()
            == "Tags"@ && legacy_filter(tags)[0].options.len() == tags.len() && forall|k: int|
            0 <= k < tags.len() ==> (#[trigger] legacy_filter(tags)[0].options[k]).value == tags[k]
                && legacy_filter(tags)[0].options[k].label == LocalizedView::Raw(tags[k]),
{
}

// ---------------------------------------------------------------------------
// What is told of what is refused

/// The sorts are refused as a list, or for the first refused sort.
pub proof fn law_refused_sorts(dialect: Dialect, discover: LuaTable)
    ensures
        ({
            let sorts = optional_table_fault(discover, "sorts"@, "info().capabilities.discover"@);
            let sorts_part = match table_field(discover, "sorts"@) {
                Some(t) => first_of(t.sequence@.len() as int, sort_faults(dialect, t.sequence@)),
                None => None,
            };
            sorts_fault(dialect, discover) == (if sorts is Some {
                sorts
            } else if sorts_part is Some {
                sorts_part
            } else {
                None
            })
        }),
{
}

/// What is told of the options of a filter that are refused.
pub proof fn law_refused_localized_options(t: LuaTable, context: Seq<char>, dialect: Dialect)
    ensures
        ({
            let options = table_field(t, "options"@);
            let values = table_field(t, "values"@);
            let options_part = optional_table_fault(t, "options"@, context);
            let values_part = optional_table_fault(t, "values"@, context);
            let values_parts = if options is Some && values is Some {
                Some(
                    Fault::Internal(
                        context + ".options and legacy "@ + context
                            + ".values cannot both be present"@,
                    ),
                )
            } else if options is Some {
                first_of(
                    options->0.sequence@.len() as int,
                    option_faults(options->0.sequence@, context),
                )
            } else if values is Some {
                first(
                    unless(
                        dialect is Localized3,
                        Fault::Internal(
                            context + ".values is only supported for entry_version 3; use "@
                                + context + ".options"@,
                        ),
                    ),
                    text_items_fault(values->0.sequence@, "values"@, context),
                )
            } else {
                Some(complaint(context, "options"@, " required"@))
            };
            localized_options_fault(t, context, dialect) == (if options_part is Some {
                options_part
            } else if values_part is Some {
                values_part
            } else if values_parts is Some {
                values_parts
            } else {
                None
            })
        }),
{
}

/// What is told of a filter that is refused: the first of the rules that it
/// breaks.
pub proof fn law_refused_filter(
    t: LuaTable,
    context: Seq<char>,
    dialect: Dialect,
    ids: Seq<Seq<char>>,
    used: Seq<Seq<char>>,
)
    ensures
        ({
            let id = text_field(t, "id"@);
            let name = text_field(t, "type"@);
            let toggle = filter_type(name) == Some(DiscoverFilterType::Toggle);
            let options = filter_options_value(dialect, t);
            let field = option_field(dialect, t);
            let title = required_label_fault(dialect, t, "title"@, context);
            let filter_options = filter_options_fault(t, context, dialect);
            let value_labels = value_labels_fault(dialect, t, context);
            let option_values = option_values_fault(used, values_of(options), context, field);
            let filter_texts = filter_texts_fault(dialect, t, context, toggle);
            one_filter_fault(t, context, dialect, ids, used)
                == (if t.field("id"@).as_text() is None {
                Some(
                    Fault::Internal(
                        context + "."@ + "id"@ + (" required: "@
                            + crate::plugin::lua::not_text(t.field("id"@))),
                    ),
                )
            } else if title is Some {
                title
            } else if !(id.len() > 0 && label(dialect, t, "title"@).text().len() > 0) {
                Some(Fault::Internal(context + ".id and "@ + context + ".title must not be empty"@))
            } else if ids.contains(id) {
                Some(
                    Fault::Internal(
                        context + "."@ + "id"@ + (" '"@ + id + "' is declared more than once"@),
                    ),
                )
            } else if t.field("type"@).as_text() is None {
                Some(
                    Fault::Internal(
                        context + "."@ + "type"@ + (" required: "@
                            + crate::plugin::lua::not_text(t.field("type"@))),
                    ),
                )
            } else if !(filter_type(name) is Some) {
                Some(
                    Fault::Internal(
                        context + "."@ + "type"@ + (" '"@ + name
                            + "' must be select, multi_select, or toggle"@),
                    ),
                )
            } else if filter_options is Some {
                filter_options
            } else if !(options.len() > 0) {
                Some(Fault::Internal(context + "."@ + field + " must not be empty"@))
            } else if !(toggle ==> options.len() == 1) {
                Some(
                    Fault::Internal(
                        context + "."@ + field + " must contain exactly one value for a toggle"@,
                    ),
                )
            } else if value_labels is Some {
                value_labels
            } else if option_values is Some {
                option_values
            } else if filter_texts is Some {
                filter_texts
            } else {
                None
            })
        }),
{
}

/// Of the texts of a filter the first that is none is told of.
pub proof fn law_refused_texts_of_a_filter(
    dialect: Dialect,
    t: LuaTable,
    context: Seq<char>,
    toggle: bool,
)
    ensures
        ({
            let description = label_fault(dialect, t, "description"@, context);
            let confirmation = label_fault(dialect, t, "confirmation"@, context);
            filter_texts_fault(dialect, t, context, toggle) == (if description is Some {
                description
            } else if confirmation is Some {
                confirmation
            } else if !(label(dialect, t, "confirmation"@).text().len() > 0 ==> toggle) {
                Some(
                    Fault::Internal(
                        context + "."@ + "confirmation"@ + " is only supported for toggle filters"@,
                    ),
                )
            } else {
                None
            })
        }),
{
}

/// The filters are refused as a list, or for the first refused filter.
pub proof fn law_refused_filters(discover: LuaTable, dialect: Dialect)
    ensures
        ({
            let filters = optional_table_fault(
                discover,
                "filters"@,
                "info().capabilities.discover"@,
            );
            let filters_part = match table_field(discover, "filters"@) {
                Some(t) => first_of(t.sequence@.len() as int, filter_faults(t.sequence@, dialect)),
                None => None,
            };
            filters_fault(discover, dialect) == (if filters is Some {
                filters
            } else if filters_part is Some {
                filters_part
            } else {
                None
            })
        }),
{
}

/// A selection is refused for a value given twice, then for one that no filter
/// offers, then for a filter that takes one value and is given more.
pub proof fn law_refused_selection(
    plugin: Seq<char>,
    filters: Seq<DiscoverFilterView>,
    selected: Seq<Seq<char>>,
)
    ensures
        ({
            let duplicate = first_of(selected.len() as int, duplicate_faults(plugin, selected));
            let undeclared = first_of(
                selected.len() as int,
                undeclared_faults(plugin, filters, selected),
            );
            let crowded = first_of(
                filters.len() as int,
                crowded_faults(plugin, filters, selected),
            );
            selected_values_fault(plugin, filters, selected) == (if duplicate is Some {
                duplicate
            } else if undeclared is Some {
                undeclared
            } else if crowded is Some {
                crowded
            } else {
                None
            })
        }),
{
}

/// What is told of a sort that is refused: that it is no table, that its key or
/// its label is none, or that one of them is empty.
pub proof fn law_refused_sort(dialect: Dialect, item: LuaValue, i: int)
    ensures
        ({
            let place = "info().capabilities.discover.sorts"@ + "["@ + crate::text::decimal(i + 1)
                + "]"@;
            &&& !(item is Table) ==> sort_fault(dialect, item, i) == Some(
                Fault::Internal(place + " must be a table: "@ + not_a(item, "table"@)),
            )
            &&& item matches LuaValue::Table(t) ==> sort_fault(dialect, item, i) == (if t.field(
                "key"@,
            ).as_text() is None {
                required_text_fault(t, "key"@, place)
            } else if required_label_fault(dialect, t, "label"@, place) is Some {
                required_label_fault(dialect, t, "label"@, place)
            } else if text_field(t, "key"@).len() == 0 || label(dialect, t, "label"@).text().len()
                == 0 {
                Some(Fault::Internal(place + ".key and "@ + place + ".label must not be empty"@))
            } else {
                None
            })
        }),
{
}

/// What is told of an option that is refused: that it is no table, or that its
/// value or its label is none.
pub proof fn law_refused_option(item: LuaValue, context: Seq<char>, i: int)
    ensures
        ({
            let place = context + "."@ + "options"@ + "["@ + crate::text::decimal(i + 1) + "]"@;
            &&& !(item is Table) ==> option_fault(item, context, i) == Some(
                Fault::Internal(place + " must be an object: "@ + not_a(item, "table"@)),
            )
            &&& item matches LuaValue::Table(t) ==> option_fault(item, context, i) == (if t.field(
                "value"@,
            ).as_text() is None {
                required_text_fault(t, "value"@, place)
            } else {
                required_localized_fault(t, "label"@, place)
            })
        }),
{
}

/// Labels of values are either none, or one for each value and none of them
/// empty; with localized texts they are not read.
pub proof fn law_refused_value_labels(dialect: Dialect, t: LuaTable, context: Seq<char>)
    ensures
        ({
            let labels = texts_field(t, "value_labels"@);
            let place = context + "."@ + "value_labels"@;
            value_labels_fault(dialect, t, context) == (if dialect.localized() {
                None
            } else if labels.len() != 0 && labels.len() != texts_field(t, "values"@).len() {
                Some(Fault::Internal(place + " must be empty or contain one label per value"@))
            } else if exists|i: int| 0 <= i < labels.len() && (#[trigger] labels[i]).len() == 0 {
                Some(Fault::Internal(place + " must not contain an empty label"@))
            } else {
                None
            })
        }),
{
}

/// The values of a filter are refused for the first that is empty or given
/// before.
pub proof fn law_refused_values(
    used: Seq<Seq<char>>,
    values: Seq<Seq<char>>,
    context: Seq<char>,
    field: Seq<char>,
    i: int,
)
    requires
        0 <= i < values.len(),
        forall|j: int|
            0 <= j < i ==> (#[trigger] values[j]).len() > 0 && !(used + values.take(j)).contains(
                values[j],
            ),
    ensures
        values[i].len() == 0 ==> option_values_fault(used, values, context, field) == Some(
            Fault::Internal(context + "."@ + field + " must not contain an empty value"@),
        ),
        values[i].len() > 0 && (used + values.take(i)).contains(values[i]) ==> option_values_fault(
            used,
            values,
            context,
            field,
        ) == Some(
            Fault::Internal(
                context + "."@ + field + (" contains duplicate discover value '"@ + values[i]
                    + "'"@),
            ),
        ),
{
    let faults = value_faults(used, values, context, field);
    assert forall|j: int| 0 <= j < i implies (#[trigger] faults(j)) is None by {
        assert(values[j].len() > 0);
    }
    crate::error::law_first_fault(values.len() as int, faults, i);
}

/// What is told of a selection that is refused: the value that is given twice,
/// the value that is not offered, the filter that takes one value.
pub proof fn law_refused_selected_values(
    plugin: Seq<char>,
    filters: Seq<DiscoverFilterView>,
    selected: Seq<Seq<char>>,
    i: int,
)
    ensures
        duplicate_faults(plugin, selected)(i) == (if selected.take(i).contains(selected[i]) {
            Some(
                Fault::InvalidArgument(
                    request_of(plugin) + " discover filter value '"@ + selected[i]
                        + "' is duplicated"@,
                ),
            )
        } else {
            None
        }),
        undeclared_faults(plugin, filters, selected)(i) == (if offers(filters, selected[i]) {
            None
        } else {
            Some(
                Fault::InvalidArgument(
                    request_of(plugin) + " does not declare discover filter value '"@ + selected[i]
                        + "'"@,
                ),
            )
        }),
        crowded_faults(plugin, filters, selected)(i) == (if filters[i].ty is Select
            && selected_count(filters[i].options, selected) > 1 {
            Some(
                Fault::InvalidArgument(
                    request_of(plugin) + " discover filter '"@ + filters[i].id
                        + "' accepts one value"@,
                ),
            )
        } else {
            None
        }),
        offers(filters, selected[i]) <==> exists|k: int|
            0 <= k < filters.len()
                && #[trigger] values_of(filters[k].options).contains(selected[i]),
{
}

/// A filter is told of by its place in the list.
pub proof fn law_refused_filter_in_place(items: Seq<LuaValue>, dialect: Dialect, i: int)
    requires
        0 <= i < items.len(),
    ensures
        ({
            let place = "info().capabilities.discover.filters"@ + "["@ + crate::text::decimal(i + 1)
                + "]"@;
            &&& !(items[i] is Table) ==> filter_fault(items, dialect, i) == Some(
                Fault::Internal(place + " must be a table: "@ + not_a(items[i], "table"@)),
            )
            &&& items[i] matches LuaValue::Table(t) ==> filter_fault(items, dialect, i)
                == one_filter_fault(
                t,
                place,
                dialect,
                filter_ids(items).take(i),
                values_before(dialect, items, i),
            )
        }),
{
}

/// An option counts as selected where its value is, and the options add up; the
/// values of the filters before a place stand one filter after another.
pub proof fn law_selected_options(
    options: Seq<DiscoverFilterOptionView>,
    option: DiscoverFilterOptionView,
    selected: Seq<Seq<char>>,
    dialect: Dialect,
    items: Seq<LuaValue>,
    i: int,
)
    ensures
        selected_count(Seq::empty(), selected) == 0,
        selected.contains(option.value) ==> selected_count(options.push(option), selected)
            == selected_count(options, selected) + 1,
        !selected.contains(option.value) ==> selected_count(options.push(option), selected)
            == selected_count(options, selected),
        values_of(options.push(option)) == values_of(options).push(option.value),
        values_before(dialect, items, 0).len() == 0,
        0 <= i < items.len() ==> (items[i] matches LuaValue::Table(t) ==> values_before(
            dialect,
            items,
            i + 1,
        ) == values_before(dialect, items, i) + values_of(filter_options_value(dialect, t))),
{
    assert(options.push(option).drop_last() =~= options);
    assert(values_of(options.push(option)) =~= values_of(options).push(option.value));
}

/// A request is told of by the name of its plugin.
pub proof fn law_request_of(plugin: Seq<char>)
    ensures
        request_of(plugin) == "source plugin '"@ + plugin + "'"@,
{
}

} // verus!
