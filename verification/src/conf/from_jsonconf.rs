use crate::conf::jsonconf::{
    CasingOpts, ConfigRoot, ParserOptLines, ReplaceColumnSanitizerEntry, SanitizeColumnOpts,
    SanitizeColumnsEntry, TrimOpts, TypeColumnsEntry,
};
use crate::errors::{minimal_error, PattiCsvError, PattiCsvErrorView};
use crate::iterating_parser::{PattiCsvParser, PattiCsvParserBuilder};
use crate::parser_config::{
    opt_text, TransitizerMap, TypeColumnEntry, TypeColumnEntryView, typing_views,
};
use crate::skip_take_lines::{
    skip_regex_error_msg, skipper_views, LineSkipper, LineSkipperView, SkipEmptyLines,
    SkipLinesByRegex, SkipLinesFromStart, SkipLinesStartingWith,
};
use crate::transform_sanitize_token::{
    chain_views, Eradicate, RegexTake, ReplaceWith, ToLowercase, ToUppercase, Transitizer,
    TransitizerView, TrimAll, TrimLeading, TrimTrailing,
};
use vstd::prelude::*;

verus! {

/// The transforms that one configured kind stands for.
pub open spec fn resolved(entry: SanitizeColumnOpts) -> Seq<TransitizerView> {
    match entry {
        SanitizeColumnOpts::Trim { spec } => seq![
            match spec {
                TrimOpts::All => TransitizerView::TrimAll,
                TrimOpts::Leading => TransitizerView::TrimLeading,
                TrimOpts::Trailing => TransitizerView::TrimTrailing,
            },
        ],
        SanitizeColumnOpts::Casing { spec } => seq![
            match spec {
                CasingOpts::ToLower => TransitizerView::ToLowercase,
                CasingOpts::ToUpper => TransitizerView::ToUppercase,
            },
        ],
        SanitizeColumnOpts::Eradicate { spec } => spec@.map_values(
            |s: String| TransitizerView::Eradicate { eradicate: s@ },
        ),
        SanitizeColumnOpts::Replace { spec } => spec@.map_values(
            |e: ReplaceColumnSanitizerEntry| TransitizerView::ReplaceWith { from: e.from@, to: e.to@ },
        ),
        SanitizeColumnOpts::RegexTake { spec } => seq![TransitizerView::RegexTake { pattern: spec@ }],
    }
}

/// Whether `e` reports a pattern that did not compile into a transform.
pub open spec fn is_compile_error(e: PattiCsvError) -> bool {
    exists|text: Seq<char>|
        e@ == PattiCsvErrorView::Sanitize(
            #[trigger] minimal_error(text, "ERROR_ON_REGEX_COMPILE"@),
        )
}

/// The transforms for one configured kind. Only a regular expression that
/// does not compile makes this fail.
pub fn resolve_sanitize_column_opts_entry(entry: &SanitizeColumnOpts) -> (r: Result<
    Vec<Transitizer>,
    PattiCsvError,
>)
    ensures
        match r {
            Ok(chain) => chain_views(chain@) == resolved(*entry),
            Err(e) => entry is RegexTake && is_compile_error(e),
        },
{
    match entry {
        SanitizeColumnOpts::Trim { spec } => {
            let t = match spec {
                TrimOpts::All => Transitizer::TrimAll(TrimAll),
                TrimOpts::Leading => Transitizer::TrimLeading(TrimLeading),
                TrimOpts::Trailing => Transitizer::TrimTrailing(TrimTrailing),
            };
            let chain = vec![t];
            assert(chain_views(chain@) =~= resolved(*entry));
            Ok(chain)
        },
        SanitizeColumnOpts::Casing { spec } => {
            let t = match spec {
                CasingOpts::ToLower => Transitizer::ToLowercase(ToLowercase),
                CasingOpts::ToUpper => Transitizer::ToUppercase(ToUppercase),
            };
            let chain = vec![t];
            assert(chain_views(chain@) =~= resolved(*entry));
            Ok(chain)
        },
        SanitizeColumnOpts::Eradicate { spec } => {
            let mut chain: Vec<Transitizer> = Vec::new();
            let mut i: usize = 0;
            while i < spec.len()
                invariant
                    i <= spec@.len(),
                    chain@.len() == i,
                    forall|j: int|
                        0 <= j < i ==> (#[trigger] chain@[j])@ == (TransitizerView::Eradicate {
                            eradicate: spec@[j]@,
                        }),
                decreases spec.len() - i,
            {
                chain.push(Transitizer::Eradicate(Eradicate::new(spec[i].as_str())));
                i += 1;
            }
            assert(chain_views(chain@) =~= resolved(*entry));
            Ok(chain)
        },
        SanitizeColumnOpts::Replace { spec } => {
            let mut chain: Vec<Transitizer> = Vec::new();
            let mut i: usize = 0;
            while i < spec.len()
                invariant
                    i <= spec@.len(),
                    chain@.len() == i,
                    forall|j: int|
                        0 <= j < i ==> (#[trigger] chain@[j])@ == (TransitizerView::ReplaceWith {
                            from: spec@[j].from@,
                            to: spec@[j].to@,
                        }),
                decreases spec.len() - i,
            {
                chain.push(
                    Transitizer::ReplaceWith(
                        ReplaceWith::new(spec[i].from.as_str(), spec[i].to.as_str()),
                    ),
                );
                i += 1;
            }
            assert(chain_views(chain@) =~= resolved(*entry));
            Ok(chain)
        },
        SanitizeColumnOpts::RegexTake { spec } => {
            match RegexTake::new(spec.as_str()) {
                Ok(re) => {
                    let chain = vec![Transitizer::RegexTake(re)];
                    assert(chain_views(chain@) =~= resolved(*entry));
                    Ok(chain)
                },
                Err(e) => Err(e),
            }
        },
    }
}

/// The transforms that a list of configured kinds stands for, in order.
pub open spec fn resolved_chain(sanitizers: Seq<SanitizeColumnOpts>) -> Seq<TransitizerView>
    decreases sanitizers.len(),
{
    if sanitizers.len() == 0 {
        Seq::empty()
    } else {
        resolved_chain(sanitizers.drop_last()) + resolved(sanitizers.last())
    }
}

/// Whether one of the configured kinds is a regular expression.
pub open spec fn has_regex(sanitizers: Seq<SanitizeColumnOpts>) -> bool {
    exists|i: int| 0 <= i < sanitizers.len() && (#[trigger] sanitizers[i]) is RegexTake
}

/// The keys that an entry's transforms are filed under: its columns, or
/// the key for every column where it names none.
pub open spec fn entry_keys(idxs: Option<Vec<usize>>) -> Seq<Option<usize>> {
    match idxs {
        Some(v) => v@.map_values(|i: usize| Some(i)),
        None => seq![None],
    }
}

fn mk_token_transitizers_for(entry: &SanitizeColumnsEntry) -> (r: Result<
    Vec<Transitizer>,
    PattiCsvError,
>)
    ensures
        match r {
            Ok(chain) => chain_views(chain@) == resolved_chain(entry.sanitizers@),
            Err(e) => has_regex(entry.sanitizers@) && is_compile_error(e),
        },
{
    let mut chain: Vec<Transitizer> = Vec::with_capacity(entry.sanitizers.len());
    let mut i: usize = 0;
    assert(entry.sanitizers@.take(0) =~= Seq::empty());
    assert(chain_views(chain@) =~= Seq::empty());
    while i < entry.sanitizers.len()
        invariant
            i <= entry.sanitizers@.len(),
            chain_views(chain@) == resolved_chain(entry.sanitizers@.take(i as int)),
        decreases entry.sanitizers.len() - i,
    {
        let ghost before = chain@;
        match resolve_sanitize_column_opts_entry(&entry.sanitizers[i]) {
            Ok(more) => {
                let mut more = more;
                let ghost added = more@;
                chain.append(&mut more);
                proof {
                    assert(chain@ =~= before + added);
                    assert(chain_views(chain@) =~= chain_views(before) + chain_views(added));
                    assert(entry.sanitizers@.take(i + 1).drop_last() =~= entry.sanitizers@.take(
                        i as int,
                    ));
                    assert(entry.sanitizers@.take(i + 1).last() == entry.sanitizers@[i as int]);
                }
            },
            Err(e) => {
                assert(entry.sanitizers@[i as int] is RegexTake);
                return Err(e);
            },
        }
        i += 1;
    }
    assert(entry.sanitizers@.take(entry.sanitizers@.len() as int) =~= entry.sanitizers@);
    Ok(chain)
}

/// The chains that an entry stands for, each with the key it is filed
/// under: one chain for each of the entry's columns, or one for every
/// column. Only a regular expression that does not compile makes this
/// fail.
pub fn resolve_sanitize_columns_entry(entry: &SanitizeColumnsEntry) -> (r: Result<
    Vec<(Option<usize>, Vec<Transitizer>)>,
    PattiCsvError,
>)
    ensures
        match r {
            Ok(list) => {
                &&& list@.len() == entry_keys(entry.idxs).len()
                &&& forall|j: int|
                    0 <= j < list@.len() ==> (#[trigger] list@[j]).0 == entry_keys(entry.idxs)[j]
                        && chain_views(list@[j].1@) == resolved_chain(entry.sanitizers@)
            },
            Err(e) => has_regex(entry.sanitizers@) && entry_keys(entry.idxs).len() > 0
                && is_compile_error(e),
        },
{
    match &entry.idxs {
        Some(idxs) => {
            let mut res: Vec<(Option<usize>, Vec<Transitizer>)> = Vec::new();
            let mut k: usize = 0;
            while k < idxs.len()
                invariant
                    k <= idxs@.len(),
                    entry.idxs matches Some(v) && v@ == idxs@,
                    res@.len() == k,
                    forall|j: int|
                        0 <= j < k ==> (#[trigger] res@[j]).0 == Some(idxs@[j]) && chain_views(
                            res@[j].1@,
                        ) == resolved_chain(entry.sanitizers@),
                decreases idxs.len() - k,
            {
                match mk_token_transitizers_for(entry) {
                    Ok(chain) => {
                        res.push((Some(idxs[k]), chain));
                    },
                    Err(e) => {
                        return Err(e);
                    },
                }
                k += 1;
            }
            Ok(res)
        },
        None => match mk_token_transitizers_for(entry) {
            Ok(chain) => Ok(vec![(None, chain)]),
            Err(e) => Err(e),
        },
    }
}

/// A copy of `texts`.
fn copy_texts(texts: &Vec<String>) -> (r: Vec<String>)
    ensures
        r@.map_values(|t: String| t@) == texts@.map_values(|t: String| t@),
{
    let mut r: Vec<String> = Vec::with_capacity(texts.len());
    let mut i: usize = 0;
    while i < texts.len()
        invariant
            i <= texts@.len(),
            r@.len() == i,
            forall|j: int| 0 <= j < i ==> (#[trigger] r@[j])@ == texts@[j]@,
        decreases texts.len() - i,
    {
        r.push(texts[i].clone());
        i += 1;
    }
    assert(r@.map_values(|t: String| t@) =~= texts@.map_values(|t: String| t@));
    r
}

/// What a configured typing says.
pub open spec fn configured_typing(entry: TypeColumnsEntry) -> TypeColumnEntryView {
    TypeColumnEntryView {
        header: opt_text(entry.header),
        target_type: entry.target_type,
        chrono_pattern: opt_text(entry.src_pattern),
        map_to_none: match entry.map_to_none {
            Some(v) => Some(v@.map_values(|t: String| t@)),
            None => None,
        },
    }
}

impl<'a> vstd::std_specs::convert::FromSpecImpl<&'a TypeColumnsEntry> for TypeColumnEntry {
    /// A typing holds texts, which are copied: the copy says the same as
    /// the entry, and is not the same value.
    open spec fn obeys_from_spec() -> bool {
        false
    }

    open spec fn from_spec(entry: &'a TypeColumnsEntry) -> TypeColumnEntry {
        arbitrary()
    }
}

impl<'a> From<&'a TypeColumnsEntry> for TypeColumnEntry {
    /// The typing that the configured entry stands for.
    fn from(entry: &'a TypeColumnsEntry) -> (e: TypeColumnEntry)
        ensures
            e@ == configured_typing(*entry),
    {
        let header = match &entry.header {
            Some(h) => Some(h.clone()),
            None => None,
        };
        match (&entry.src_pattern, &entry.map_to_none) {
            (None, None) => TypeColumnEntry::new(header, entry.target_type),
            (None, Some(map_to_none)) => TypeColumnEntry::new_with_map_to_none(
                header,
                entry.target_type,
                copy_texts(map_to_none),
            ),
            (Some(src_pattern), None) => TypeColumnEntry::new_with_chrono_pattern(
                header,
                entry.target_type,
                src_pattern.as_str(),
            ),
            (Some(src_pattern), Some(map_to_none)) => {
                TypeColumnEntry::new_with_chrono_pattern_with_map_to_none(
                    header,
                    entry.target_type,
                    src_pattern.as_str(),
                    copy_texts(map_to_none),
                )
            },
        }
    }
}

/// What the chains of a map are set to do.
pub open spec fn map_views(m: Map<Option<usize>, Seq<Transitizer>>) -> Map<
    Option<usize>,
    Seq<TransitizerView>,
> {
    m.map_values(|c: Seq<Transitizer>| chain_views(c))
}

/// The chains `m` after `chain` was filed under `key`: appended to the
/// chain that the key had, or as the key's chain where it had none.
pub open spec fn filed(
    m: Map<Option<usize>, Seq<TransitizerView>>,
    key: Option<usize>,
    chain: Seq<TransitizerView>,
) -> Map<Option<usize>, Seq<TransitizerView>> {
    m.insert(
        key,
        if m.contains_key(key) {
            m[key] + chain
        } else {
            chain
        },
    )
}

/// The chains `m` after `chain` was filed under each of `keys` in turn.
pub open spec fn filed_under(
    m: Map<Option<usize>, Seq<TransitizerView>>,
    keys: Seq<Option<usize>>,
    chain: Seq<TransitizerView>,
) -> Map<Option<usize>, Seq<TransitizerView>>
    decreases keys.len(),
{
    if keys.len() == 0 {
        m
    } else {
        filed(filed_under(m, keys.drop_last(), chain), keys.last(), chain)
    }
}

proof fn lemma_filed(m: Map<Option<usize>, Seq<Transitizer>>, key: Option<usize>, more: Seq<
    Transitizer,
>)
    ensures
        map_views(
            m.insert(
                key,
                if m.contains_key(key) {
                    m[key] + more
                } else {
                    more
                },
            ),
        ) == filed(map_views(m), key, chain_views(more)),
{
    if m.contains_key(key) {
        assert(chain_views(m[key] + more) =~= chain_views(m[key]) + chain_views(more));
    }
    assert(map_views(
        m.insert(
            key,
            if m.contains_key(key) {
                m[key] + more
            } else {
                more
            },
        ),
    ) =~= filed(map_views(m), key, chain_views(more)));
}

/// The keys of a map after each of `keys` was filed under in turn.
pub open spec fn keys_filed(dom: Set<Option<usize>>, keys: Seq<Option<usize>>) -> Set<Option<usize>>
    decreases keys.len(),
{
    if keys.len() == 0 {
        dom
    } else {
        keys_filed(dom, keys.drop_last()).insert(keys.last())
    }
}

/// How many keys a map holds after each of `keys` was filed under in turn,
/// where it held the `count` keys `dom` before: one more for every key that
/// it did not hold yet.
pub open spec fn count_filed(dom: Set<Option<usize>>, count: nat, keys: Seq<Option<usize>>) -> nat
    decreases keys.len(),
{
    if keys.len() == 0 {
        count
    } else {
        count_filed(dom, count, keys.drop_last()) + (if keys_filed(dom, keys.drop_last()).contains(
            keys.last(),
        ) {
            0nat
        } else {
            1nat
        })
    }
}

/// Files the chains that `entry` stands for in `transitizers`: under each
/// of the entry's columns, or under the key for every column, behind what
/// is filed there already. Where the entry holds a regular expression that
/// does not compile, nothing is filed.
pub fn add_transitizers_from(entry: &SanitizeColumnsEntry, transitizers: &mut TransitizerMap) -> (r:
    Result<(), PattiCsvError>)
    ensures
        match r {
            Ok(_) => {
                &&& map_views(final(transitizers)@) == filed_under(
                    map_views(old(transitizers)@),
                    entry_keys(entry.idxs),
                    resolved_chain(entry.sanitizers@),
                )
                &&& final(transitizers)@.dom() == keys_filed(
                    old(transitizers)@.dom(),
                    entry_keys(entry.idxs),
                )
                &&& final(transitizers).key_count() == count_filed(
                    old(transitizers)@.dom(),
                    old(transitizers).key_count(),
                    entry_keys(entry.idxs),
                )
            },
            Err(e) => has_regex(entry.sanitizers@) && entry_keys(entry.idxs).len() > 0
                && is_compile_error(e) && final(transitizers)@ == old(transitizers)@,
        },
{
    let sanitizers_for_columns = match resolve_sanitize_columns_entry(entry) {
        Ok(list) => list,
        Err(e) => {
            return Err(e);
        },
    };
    let ghost keys = entry_keys(entry.idxs);
    let ghost chain = resolved_chain(entry.sanitizers@);
    let ghost list = sanitizers_for_columns@;
    assert(keys.take(0) =~= Seq::empty());
    for item in it: sanitizers_for_columns
        invariant
            it.seq() == list,
            list.len() == keys.len(),
            forall|j: int|
                0 <= j < list.len() ==> (#[trigger] list[j]).0 == keys[j] && chain_views(list[j].1@)
                    == chain,
            map_views(transitizers@) == filed_under(
                map_views(old(transitizers)@),
                keys.take(it.index() as int),
                chain,
            ),
            transitizers@.dom() == keys_filed(
                old(transitizers)@.dom(),
                keys.take(it.index() as int),
            ),
            transitizers.key_count() == count_filed(
                old(transitizers)@.dom(),
                old(transitizers).key_count(),
                keys.take(it.index() as int),
            ),
    {
        let ghost before = transitizers@;
        let ghost n = it.index() as int;
        let (col_idx, new_transitizers) = item;
        assert(item == list[n]);
        transitizers.extend_chain(col_idx, new_transitizers);
        proof {
            lemma_filed(before, col_idx, new_transitizers@);
            assert(keys.take(n + 1).drop_last() =~= keys.take(n));
            assert(keys.take(n + 1).last() == keys[n]);
            assert(transitizers@.dom() =~= before.dom().insert(col_idx));
        }
    }
    assert(keys.take(keys.len() as int) =~= keys);
    Ok(())
}

/// The chains that a list of entries stands for, by key.
pub open spec fn configured_chains(entries: Seq<SanitizeColumnsEntry>) -> Map<
    Option<usize>,
    Seq<TransitizerView>,
>
    decreases entries.len(),
{
    if entries.len() == 0 {
        Map::empty()
    } else {
        filed_under(
            configured_chains(entries.drop_last()),
            entry_keys(entries.last().idxs),
            resolved_chain(entries.last().sanitizers@),
        )
    }
}

/// Whether making the chains of `entries` takes compiling a regular
/// expression.
pub open spec fn chains_need_regex(entries: Seq<SanitizeColumnsEntry>) -> bool {
    exists|i: int|
        0 <= i < entries.len() && has_regex((#[trigger] entries[i]).sanitizers@) && entry_keys(
            entries[i].idxs,
        ).len() > 0
}

/// The rule for blank lines, where the configuration asks for it.
pub open spec fn blank_rules(lines: ParserOptLines) -> Seq<LineSkipperView> {
    if lines.skip_empty_lines == Some(true) {
        seq![LineSkipperView::Empty]
    } else {
        Seq::empty()
    }
}

/// The rule for the first lines, where the configuration asks for it.
pub open spec fn start_rules(lines: ParserOptLines) -> Seq<LineSkipperView> {
    match lines.skip_lines_from_start {
        Some(n) => seq![LineSkipperView::FromStart { skip_num_lines: n }],
        None => Seq::empty(),
    }
}

/// The rules for lines with a given start.
pub open spec fn prefix_rules(lines: ParserOptLines) -> Seq<LineSkipperView> {
    match lines.skip_lines_by_startswith {
        Some(v) => v@.map_values(|s: String| LineSkipperView::StartingWith { starts_with: s@ }),
        None => Seq::empty(),
    }
}

/// The rules for lines that match a regular expression.
pub open spec fn regex_rules(lines: ParserOptLines) -> Seq<LineSkipperView> {
    match lines.skip_lines_by_regex {
        Some(v) => v@.map_values(|s: String| LineSkipperView::ByRegex { pattern: s@ }),
        None => Seq::empty(),
    }
}

/// The rules that the configured lines stand for, in the order in which
/// they are applied: blank lines, the first lines, lines with a given
/// start, lines that match a regular expression.
pub open spec fn configured_rules(lines: ParserOptLines) -> Seq<LineSkipperView> {
    blank_rules(lines) + start_rules(lines) + prefix_rules(lines) + regex_rules(lines)
}

/// Whether `e` reports a pattern of `patterns` that did not compile into a
/// rule.
pub open spec fn is_rule_compile_error(patterns: Seq<String>, e: PattiCsvError) -> bool {
    exists|i: int, text: Seq<char>|
        0 <= i < patterns.len() && e@ == (PattiCsvErrorView::ConfigError {
            msg: #[trigger] skip_regex_error_msg(patterns[i]@, text),
        })
}

fn rules_from(lines: &ParserOptLines) -> (r: Result<Vec<LineSkipper>, PattiCsvError>)
    ensures
        match r {
            Ok(rules) => skipper_views(rules@) == configured_rules(*lines),
            Err(e) => lines.skip_lines_by_regex matches Some(patterns) && is_rule_compile_error(
                patterns@,
                e,
            ),
        },
{
    let mut rules: Vec<LineSkipper> = Vec::new();
    let ghost blank = blank_rules(*lines);
    let ghost start = start_rules(*lines);
    let ghost with = prefix_rules(*lines);
    let ghost matching = regex_rules(*lines);
    if let Some(true) = lines.skip_empty_lines {
        rules.push(LineSkipper::Empty(SkipEmptyLines::new()));
    }
    assert(skipper_views(rules@) =~= blank);
    if let Some(n) = lines.skip_lines_from_start {
        rules.push(LineSkipper::FromStart(SkipLinesFromStart::new(n)));
    }
    assert(skipper_views(rules@) =~= blank + start);
    if let Some(v) = &lines.skip_lines_by_startswith {
        let mut i: usize = 0;
        assert(with.take(0) =~= Seq::empty());
        while i < v.len()
            invariant
                i <= v@.len(),
                with == v@.map_values(|s: String| LineSkipperView::StartingWith { starts_with: s@ }),
                with.len() == v@.len(),
                skipper_views(rules@) =~= blank + start + with.take(i as int),
            decreases v.len() - i,
        {
            let ghost before = rules@;
            let rule = LineSkipper::StartingWith(SkipLinesStartingWith::new(v[i].as_str()));
            rules.push(rule);
            i += 1;
            assert(skipper_views(rules@) =~= skipper_views(before).push(rule@));
            assert(with.take(i as int) =~= with.take(i - 1).push(rule@));
        }
        assert(with.take(v@.len() as int) =~= with);
    }
    assert(skipper_views(rules@) =~= blank + start + with);
    if let Some(v) = &lines.skip_lines_by_regex {
        let mut i: usize = 0;
        assert(matching.take(0) =~= Seq::empty());
        while i < v.len()
            invariant
                i <= v@.len(),
                lines.skip_lines_by_regex matches Some(patterns) && patterns@ == v@,
                matching == v@.map_values(|s: String| LineSkipperView::ByRegex { pattern: s@ }),
                matching.len() == v@.len(),
                skipper_views(rules@) =~= blank + start + with + matching.take(i as int),
            decreases v.len() - i,
        {
            let ghost before = rules@;
            match SkipLinesByRegex::new(v[i].as_str()) {
                Ok(rule) => {
                    let rule = LineSkipper::ByRegex(rule);
                    rules.push(rule);
                    assert(skipper_views(rules@) =~= skipper_views(before).push(rule@));
                    assert(matching.take(i + 1) =~= matching.take(i as int).push(rule@));
                },
                Err(e) => {
                    return Err(e);
                },
            }
            i += 1;
        }
        assert(matching.take(v@.len() as int) =~= matching);
    }
    assert(skipper_views(rules@) =~= blank + start + with + matching);
    Ok(rules)
}

fn chains_from(entries: &Vec<SanitizeColumnsEntry>) -> (r: Result<TransitizerMap, PattiCsvError>)
    ensures
        match r {
            Ok(m) => map_views(m@) == configured_chains(entries@),
            Err(e) => chains_need_regex(entries@) && is_compile_error(e),
        },
{
    let mut transitizers = TransitizerMap::new();
    let mut i: usize = 0;
    assert(entries@.take(0) =~= Seq::empty());
    assert(map_views(transitizers@) =~= Map::empty());
    while i < entries.len()
        invariant
            i <= entries@.len(),
            map_views(transitizers@) == configured_chains(entries@.take(i as int)),
        decreases entries.len() - i,
    {
        match add_transitizers_from(&entries[i], &mut transitizers) {
            Ok(_) => {},
            Err(e) => {
                assert(has_regex(entries@[i as int].sanitizers@));
                return Err(e);
            },
        }
        proof {
            assert(entries@.take(i + 1).drop_last() =~= entries@.take(i as int));
            assert(entries@.take(i + 1).last() == entries@[i as int]);
        }
        i += 1;
    }
    assert(entries@.take(entries@.len() as int) =~= entries@);
    Ok(transitizers)
}

fn typings_from(entries: &Vec<TypeColumnsEntry>) -> (typings: Vec<TypeColumnEntry>)
    ensures
        typing_views(typings@) == entries@.map_values(|e: TypeColumnsEntry| configured_typing(e)),
{
    let mut typings: Vec<TypeColumnEntry> = Vec::with_capacity(entries.len());
    let mut i: usize = 0;
    while i < entries.len()
        invariant
            i <= entries@.len(),
            typings@.len() == i,
            forall|j: int| 0 <= j < i ==> (#[trigger] typings@[j])@ == configured_typing(
                entries@[j],
            ),
        decreases entries.len() - i,
    {
        typings.push(TypeColumnEntry::from(&entries[i]));
        i += 1;
    }
    assert(typing_views(typings@) =~= entries@.map_values(
        |e: TypeColumnsEntry| configured_typing(e),
    ));
    typings
}

/// The rules that the configuration `cfg` stands for.
pub open spec fn rules_of(cfg: ConfigRoot) -> Seq<LineSkipperView> {
    match cfg.parser_opts.lines {
        Some(lines) => configured_rules(lines),
        None => Seq::empty(),
    }
}

/// The chains that the configuration `cfg` stands for.
pub open spec fn chains_of_config(cfg: ConfigRoot) -> Map<Option<usize>, Seq<TransitizerView>> {
    match cfg.sanitize_columns {
        Some(entries) => configured_chains(entries@),
        None => Map::empty(),
    }
}

/// The typings that the configuration `cfg` stands for.
pub open spec fn typings_of(cfg: ConfigRoot) -> Option<Seq<TypeColumnEntryView>> {
    match cfg.type_columns {
        Some(entries) => Some(entries@.map_values(|e: TypeColumnsEntry| configured_typing(e))),
        None => None,
    }
}

/// What the rules of an optional list are set to do; no list stands for no
/// rules.
pub open spec fn rules_view(rules: Option<Vec<LineSkipper>>) -> Seq<LineSkipperView> {
    match rules {
        Some(v) => skipper_views(v@),
        None => Seq::empty(),
    }
}

/// What the chains of an optional map are set to do; no map stands for no
/// chains.
pub open spec fn transitizers_view(m: Option<TransitizerMap>) -> Map<
    Option<usize>,
    Seq<TransitizerView>,
> {
    match m {
        Some(m) => map_views(m@),
        None => Map::empty(),
    }
}

/// What optional typings say.
pub open spec fn typings_view(typings: Option<Vec<TypeColumnEntry>>) -> Option<
    Seq<TypeColumnEntryView>,
> {
    match typings {
        Some(v) => Some(typing_views(v@)),
        None => None,
    }
}

/// Whether `parser` is the parser that the configuration `cfg` stands
/// for. Rules and chains are only set where there are any.
pub open spec fn is_configured(cfg: ConfigRoot, parser: PattiCsvParser) -> bool {
    &&& parser.first_data_line_is_header == cfg.parser_opts.first_line_is_header
    &&& parser.dlt.delim_char == cfg.parser_opts.separator_char
    &&& parser.dlt.encl_char == cfg.parser_opts.enclosure_char
    &&& parser.dlt.save_skipped_lines == cfg.parser_opts.save_skipped_lines
    &&& rules_view(parser.dlt.skip_take_lines_fns) == rules_of(cfg)
    &&& transitizers_view(parser.column_transitizers) == chains_of_config(cfg)
    &&& typings_view(parser.column_typings) == typings_of(cfg)
    &&& typings_of(cfg) matches Some(typings) ==> typings.len() > 0
    &&& parser.dlt.skip_take_lines_fns matches Some(rules) ==> rules@.len() > 0
    &&& parser.column_transitizers matches Some(m) ==> m.key_count() > 0
}

/// Whether `e` is an error that the configuration `cfg` can give: a
/// regular expression in it did not compile, or it types no column at all.
pub open spec fn is_config_failure(cfg: ConfigRoot, e: PattiCsvError) -> bool {
    ||| (cfg.sanitize_columns matches Some(entries) && chains_need_regex(entries@)
        && is_compile_error(e))
    ||| (cfg.parser_opts.lines matches Some(lines) && (lines.skip_lines_by_regex matches Some(
        patterns,
    ) && is_rule_compile_error(patterns@, e)))
    ||| (cfg.type_columns matches Some(entries) && entries@.len() == 0 && e@ == (
    PattiCsvErrorView::ConfigError { msg: crate::iterating_parser::empty_typings_msg() }))
}

impl vstd::std_specs::convert::TryFromSpecImpl<ConfigRoot> for PattiCsvParser {
    /// Whether a regular expression compiles is not said here, and the
    /// parser holds copies of the configuration's texts.
    open spec fn obeys_try_from_spec() -> bool {
        false
    }

    open spec fn try_from_spec(cfg: ConfigRoot) -> Result<PattiCsvParser, PattiCsvError> {
        arbitrary()
    }
}

impl TryFrom<ConfigRoot> for PattiCsvParser {
    type Error = PattiCsvError;

    /// The parser that the configuration stands for. This fails where a
    /// regular expression of the configuration does not compile, and where
    /// the configuration types no column at all.
    fn try_from(cfg: ConfigRoot) -> (r: Result<PattiCsvParser, PattiCsvError>)
        ensures
            match r {
                Ok(parser) => is_configured(cfg, parser),
                Err(e) => is_config_failure(cfg, e),
            },
    {
        let mut builder = PattiCsvParserBuilder::new().enclosure_char(
            cfg.parser_opts.enclosure_char,
        ).separator_char(cfg.parser_opts.separator_char).first_data_line_is_header(
            cfg.parser_opts.first_line_is_header,
        ).save_skipped_lines(cfg.parser_opts.save_skipped_lines);

        if let Some(entries) = &cfg.sanitize_columns {
            let transitizers = match chains_from(entries) {
                Ok(m) => m,
                Err(e) => {
                    return Err(e);
                },
            };
            if !transitizers.is_empty() {
                builder = builder.column_transitizers(transitizers);
            } else {
                proof {
                    transitizers.lemma_no_keys();
                    assert(map_views(transitizers@) =~= Map::empty());
                }
            }
        }
        if let Some(lines) = &cfg.parser_opts.lines {
            let rules = match rules_from(lines) {
                Ok(rules) => rules,
                Err(e) => {
                    return Err(e);
                },
            };
            if rules.len() > 0 {
                builder = builder.skip_take_lines_fns(rules);
            } else {
                assert(skipper_views(rules@) =~= Seq::empty());
            }
        }
        if let Some(entries) = &cfg.type_columns {
            builder = builder.column_typings(typings_from(entries));
        }
        let ghost typings = builder.column_typings;
        assert(typings_view(typings) == typings_of(cfg));
        let r = builder.build();
        proof {
            if typings is Some {
                assert(typing_views(typings->Some_0@).len() == typings->Some_0@.len());
            }
        }
        r
    }
}

} // verus!
