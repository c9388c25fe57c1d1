//! Compilation of event filters into structured queries, one per channel.
//!
//! A filter has the shape `channel/provider/eventid/version`. Each part
//! may be `*`, and parts left out at the end count as `*`. There are two
//! modes: with the list of all channels of a live host, a query is made
//! for each channel that a filter touches; without it, as for an
//! archive, there is one query under the channel `*`, and a filter that
//! names a channel states so inside the query.

use crate::assoc::{
    last_index, lemma_absent, lemma_last_index_is, lemma_lookup, lemma_push, lemma_settled_ends,
    lemma_settled_step, lemma_update, pairs_map, settled,
};
use crate::text::{
    copy_chars, decimal, from_chars, has_char, joined, parse_unsigned, push_all, push_decimal,
    push_str, read_unsigned, replace_all, replaced, same_chars, split, split_on, texts,
    to_chars,
};
use vstd::prelude::*;
use vstd::string::*;

verus! {

/// Why a filter was refused.
#[derive(Debug, PartialEq, Eq)]
pub enum CompileError {
    /// The filter has more than four parts.
    TooManySeparators(String),
    /// A part of the filter holds `*` among other characters.
    EmbeddedWildcard(String),
    /// The third part of the filter is no event identifier.
    InvalidEventId(String),
    /// The fourth part of the filter is no version.
    InvalidVersion(String),
}

/// The mathematical content of a [`CompileError`].
pub enum CompileErrorView {
    TooManySeparators(Seq<char>),
    EmbeddedWildcard(Seq<char>),
    InvalidEventId(Seq<char>),
    InvalidVersion(Seq<char>),
}

impl View for CompileError {
    type V = CompileErrorView;

    open spec fn view(&self) -> CompileErrorView {
        match self {
            CompileError::TooManySeparators(s) => CompileErrorView::TooManySeparators(s@),
            CompileError::EmbeddedWildcard(s) => CompileErrorView::EmbeddedWildcard(s@),
            CompileError::InvalidEventId(s) => CompileErrorView::InvalidEventId(s@),
            CompileError::InvalidVersion(s) => CompileErrorView::InvalidVersion(s@),
        }
    }
}

/// The query of one channel: `None` where the whole channel is selected.
#[derive(Debug, PartialEq, Eq)]
pub struct ChannelQuery {
    pub channel: String,
    pub query: Option<String>,
}

/// A filter whose parts have been checked.
pub struct CheckedFilter {
    pub channel: Vec<char>,
    pub provider: Vec<char>,
    /// The event identifier, unless the part is `*`.
    pub eventid: Option<u16>,
    /// The version, unless the part is `*`.
    pub version: Option<u8>,
}

/// The mathematical content of a [`CheckedFilter`].
pub struct FilterView {
    pub channel: Seq<char>,
    pub provider: Seq<char>,
    pub eventid: Option<u16>,
    pub version: Option<u8>,
}

impl View for CheckedFilter {
    type V = FilterView;

    open spec fn view(&self) -> FilterView {
        FilterView {
            channel: self.channel@,
            provider: self.provider@,
            eventid: self.eventid,
            version: self.version,
        }
    }
}

/// Whether a part is the wildcard.
pub open spec fn is_star(part: Seq<char>) -> bool {
    part == seq!['*']
}

/// Whether a part holds the wildcard among other characters.
pub open spec fn has_embedded_star(part: Seq<char>) -> bool {
    !is_star(part) && part.contains('*')
}

/// Part `i` of a filter; the wildcard where the filter has no such part.
pub open spec fn part_at(parts: Seq<Seq<char>>, i: int) -> Seq<char> {
    if 0 <= i < parts.len() {
        parts[i]
    } else {
        seq!['*']
    }
}

/// A filter read and checked; an error names the filter. Of several
/// faults, the first of these counts: too many parts, a wildcard inside a part, an event identifier
/// that is no number up to 65535, a version that is no number up to 255.
pub open spec fn checked_filter(filter: Seq<char>) -> Result<FilterView, CompileErrorView> {
    let parts = split(filter, '/');
    let channel = part_at(parts, 0);
    let provider = part_at(parts, 1);
    let eventid = part_at(parts, 2);
    let version = part_at(parts, 3);
    if parts.len() > 4 {
        Err(CompileErrorView::TooManySeparators(filter))
    } else if has_embedded_star(channel) || has_embedded_star(provider) || has_embedded_star(
        eventid,
    ) || has_embedded_star(version) {
        Err(CompileErrorView::EmbeddedWildcard(filter))
    } else if !is_star(eventid) && parse_unsigned(eventid, false, 0xffff) is None {
        Err(CompileErrorView::InvalidEventId(filter))
    } else if !is_star(version) && parse_unsigned(version, false, 0xff) is None {
        Err(CompileErrorView::InvalidVersion(filter))
    } else {
        Ok(
            FilterView {
                channel,
                provider,
                eventid: if is_star(eventid) {
                    None
                } else {
                    Some(parse_unsigned(eventid, false, 0xffff)->0 as u16)
                },
                version: if is_star(version) {
                    None
                } else {
                    Some(parse_unsigned(version, false, 0xff)->0 as u8)
                },
            },
        )
    }
}

fn star_part(part: &Vec<char>) -> (r: bool)
    ensures
        r == is_star(part@),
{
    let r = part.len() == 1 && part[0] == '*';
    assert(r == (part@ == seq!['*'])) by {
        if r {
            assert(part@ == seq!['*']);
        }
    }
    r
}

fn embedded_star(part: &Vec<char>) -> (r: bool)
    ensures
        r == has_embedded_star(part@),
{
    !star_part(part) && has_char(part, '*')
}

fn part_of(parts: &Vec<Vec<char>>, i: usize) -> (r: Vec<char>)
    ensures
        r@ == part_at(texts(parts@), i as int),
{
    if i < parts.len() {
        copy_chars(&parts[i])
    } else {
        let mut r: Vec<char> = Vec::new();
        r.push('*');
        assert(r@ == seq!['*']);
        r
    }
}

/// Reads and checks a filter.
pub fn check_filter(filter: &str) -> (r: Result<CheckedFilter, CompileError>)
    ensures
        r is Ok <==> checked_filter(filter@) is Ok,
        r matches Ok(f) ==> checked_filter(filter@) == Ok::<FilterView, CompileErrorView>(f@),
        r matches Err(e) ==> checked_filter(filter@) == Err::<FilterView, CompileErrorView>(e@),
{
    let chars = to_chars(filter);
    let parts = split_on(&chars, '/');
    if parts.len() > 4 {
        return Err(CompileError::TooManySeparators(from_chars(&chars)));
    }
    let channel = part_of(&parts, 0);
    let provider = part_of(&parts, 1);
    let eventid = part_of(&parts, 2);
    let version = part_of(&parts, 3);
    if embedded_star(&channel) || embedded_star(&provider) || embedded_star(&eventid)
        || embedded_star(&version) {
        return Err(CompileError::EmbeddedWildcard(from_chars(&chars)));
    }
    let id: Option<u16> = if star_part(&eventid) {
        None
    } else {
        match read_unsigned(&eventid, false, 0xffff) {
            Some(n) => Some(n as u16),
            None => {
                return Err(CompileError::InvalidEventId(from_chars(&chars)));
            },
        }
    };
    let ver: Option<u8> = if star_part(&version) {
        None
    } else {
        match read_unsigned(&version, false, 0xff) {
            Some(n) => Some(n as u8),
            None => {
                return Err(CompileError::InvalidVersion(from_chars(&chars)));
            },
        }
    };
    Ok(CheckedFilter { channel, provider, eventid: id, version: ver })
}

/// The condition that a filter puts on the events of a channel, as a run
/// of bracketed tests; empty where it puts none. Without the list of all
/// channels, a named channel is tested too.
pub open spec fn xpath_query(channel: Seq<char>, filter: FilterView, live: bool) -> Seq<char> {
    (if !live && !is_star(channel) {
        "[System/Channel/@Name=\""@ + channel + "\"]"@
    } else {
        Seq::empty()
    }) + (if !is_star(filter.provider) {
        "[System/Provider/@Name=\""@ + replaced(filter.provider, seq!['\''], seq!['\\', '\''])
            + "\"]"@
    } else {
        Seq::empty()
    }) + (match filter.eventid {
        Some(id) => "[System[EventID="@ + decimal(id as nat) + "]]"@,
        None => Seq::empty(),
    }) + (match filter.version {
        Some(v) => "[System/Version="@ + decimal(v as nat) + "]"@,
        None => Seq::empty(),
    })
}

fn xpath_chars(channel: &Vec<char>, filter: &CheckedFilter, live: bool) -> (out: Vec<char>)
    ensures
        out@ == xpath_query(channel@, filter@, live),
{
    let mut out: Vec<char> = Vec::new();
    if !live && !star_part(channel) {
        push_str(&mut out, "[System/Channel/@Name=\"");
        push_all(&mut out, channel);
        push_str(&mut out, "\"]");
    }
    let ghost first = out@;
    if !star_part(&filter.provider) {
        let mut quote: Vec<char> = Vec::new();
        quote.push('\'');
        let mut escaped: Vec<char> = Vec::new();
        escaped.push('\\');
        escaped.push('\'');
        assert(quote@ == seq!['\'']);
        assert(escaped@ == seq!['\\', '\'']);
        let name = replace_all(&filter.provider, &quote, &escaped);
        push_str(&mut out, "[System/Provider/@Name=\"");
        push_all(&mut out, &name);
        push_str(&mut out, "\"]");
        assert(out@ == first + ("[System/Provider/@Name=\""@ + name@ + "\"]"@));
    } else {
        assert(out@ == first + Seq::<char>::empty());
    }
    let ghost second = out@;
    match filter.eventid {
        Some(id) => {
            push_str(&mut out, "[System[EventID=");
            push_decimal(&mut out, id as u64);
            push_str(&mut out, "]]");
            assert(out@ == second + ("[System[EventID="@ + decimal(id as nat) + "]]"@));
        },
        None => {
            assert(out@ == second + Seq::<char>::empty());
        },
    }
    let ghost third = out@;
    match filter.version {
        Some(v) => {
            push_str(&mut out, "[System/Version=");
            push_decimal(&mut out, v as u64);
            push_str(&mut out, "]");
            assert(out@ == third + ("[System/Version="@ + decimal(v as nat) + "]"@));
        },
        None => {
            assert(out@ == third + Seq::<char>::empty());
        },
    }
    out
}

/// The name of the clause that selects or suppresses events.
pub open spec fn clause_name(suppress: bool) -> Seq<char> {
    if suppress {
        "Suppress"@
    } else {
        "Select"@
    }
}

/// One clause of a query. With the list of all channels it names its
/// channel.
pub open spec fn clause(channel: Seq<char>, query: Seq<char>, suppress: bool, live: bool) -> Seq<
    char,
> {
    if live {
        seq!['<'] + clause_name(suppress) + " Path=\""@ + channel + "\">Event"@ + query + "</"@
            + clause_name(suppress) + seq!['>']
    } else {
        seq!['<'] + clause_name(suppress) + ">Event"@ + query + "</"@ + clause_name(suppress)
            + seq!['>']
    }
}

fn clause_chars(channel: &Vec<char>, query: &Vec<char>, suppress: bool, live: bool) -> (out: Vec<
    char,
>)
    ensures
        out@ == clause(channel@, query@, suppress, live),
{
    let name = if suppress {
        to_chars("Suppress")
    } else {
        to_chars("Select")
    };
    let mut out: Vec<char> = Vec::new();
    out.push('<');
    push_all(&mut out, &name);
    if live {
        push_str(&mut out, " Path=\"");
        push_all(&mut out, channel);
        push_str(&mut out, "\">Event");
    } else {
        push_str(&mut out, ">Event");
    }
    push_all(&mut out, query);
    push_str(&mut out, "</");
    push_all(&mut out, &name);
    out.push('>');
    out
}

/// The clause that selects every event of a channel.
pub open spec fn select_all() -> Seq<char> {
    "<Select>Event</Select>"@
}

/// The clauses of each selected channel.
pub type Selection = Map<Seq<char>, Seq<Seq<char>>>;

/// The selection after a filter has been applied to one channel.
///
/// A filter without condition selects the channel, or takes it out of
/// the selection if it suppresses. A filter with a condition adds its
/// clause to the channel's clauses; a suppressing clause that would be
/// the first is preceded by a clause that selects everything.
pub open spec fn applied_to_channel(
    selection: Selection,
    channel: Seq<char>,
    filter: FilterView,
    suppress: bool,
    live: bool,
) -> Selection {
    let query = xpath_query(channel, filter, live);
    if query.len() == 0 {
        if suppress {
            selection.remove(channel)
        } else if selection.dom().contains(channel) {
            selection
        } else {
            selection.insert(channel, Seq::empty())
        }
    } else {
        let known = if selection.dom().contains(channel) {
            selection[channel]
        } else {
            Seq::empty()
        };
        let base = if known.len() == 0 && suppress {
            seq![select_all()]
        } else {
            known
        };
        selection.insert(channel, base.push(clause(channel, query, suppress, live)))
    }
}

/// A filter that is applied to a channel leaves every other channel as
/// it is.
pub proof fn lemma_filter_leaves_other_channels(
    selection: Selection,
    channel: Seq<char>,
    filter: FilterView,
    suppress: bool,
    live: bool,
    other: Seq<char>,
)
    requires
        other != channel,
    ensures
        applied_to_channel(selection, channel, filter, suppress, live).dom().contains(other)
            == selection.dom().contains(other),
        selection.dom().contains(other) ==> applied_to_channel(
            selection,
            channel,
            filter,
            suppress,
            live,
        )[other] == selection[other],
{
}

/// The selection after a filter has been applied to the first `n` of the
/// given channels.
pub open spec fn applied_to_channels(
    selection: Selection,
    channels: Seq<Seq<char>>,
    n: int,
    filter: FilterView,
    suppress: bool,
    live: bool,
) -> Selection
    decreases n,
{
    if n <= 0 {
        selection
    } else {
        applied_to_channel(
            applied_to_channels(selection, channels, n - 1, filter, suppress, live),
            channels[n - 1],
            filter,
            suppress,
            live,
        )
    }
}

/// The channels that a filter is applied to: the one it names, or for
/// the wildcard every known channel, or the channel `*` where the
/// channels are not known.
pub open spec fn target_channels(filter: FilterView, all: Option<Seq<Seq<char>>>) -> Seq<
    Seq<char>,
> {
    if is_star(filter.channel) {
        match all {
            Some(names) => names,
            None => seq![seq!['*']],
        }
    } else {
        seq![filter.channel]
    }
}

/// The selection after the first `n` filters, or the first error met.
pub open spec fn applied_filters(
    selection: Selection,
    filters: Seq<Seq<char>>,
    n: int,
    suppress: bool,
    all: Option<Seq<Seq<char>>>,
) -> Result<Selection, CompileErrorView>
    decreases n,
{
    if n <= 0 {
        Ok(selection)
    } else {
        match applied_filters(selection, filters, n - 1, suppress, all) {
            Err(e) => Err(e),
            Ok(so_far) => match checked_filter(filters[n - 1]) {
                Err(e) => Err(e),
                Ok(filter) => {
                    let channels = target_channels(filter, all);
                    Ok(
                        applied_to_channels(
                            so_far,
                            channels,
                            channels.len() as int,
                            filter,
                            suppress,
                            all is Some,
                        ),
                    )
                },
            },
        }
    }
}

/// The query text of a channel with at least one clause.
pub open spec fn query_text(channel: Seq<char>, clauses: Seq<Seq<char>>, live: bool) -> Seq<char> {
    if live {
        "<QueryList><Query Id=\"0\" Path=\""@ + channel + "\">\n  "@ + joined(clauses, "\n  "@)
            + "\n</Query></QueryList>"@
    } else {
        "<QueryList><Query Id=\"0\">\n  "@ + joined(clauses, "\n  "@) + "\n</Query></QueryList>"@
    }
}

/// The query of a channel: none where it has no clause.
pub open spec fn channel_query(channel: Seq<char>, clauses: Seq<Seq<char>>, live: bool) -> Option<
    Seq<char>,
> {
    if clauses.len() == 0 {
        None
    } else {
        Some(query_text(channel, clauses, live))
    }
}

/// The queries of a selection, by channel.
pub open spec fn queries_of(selection: Selection, live: bool) -> Map<Seq<char>, Option<Seq<char>>> {
    Map::new(
        |channel: Seq<char>| selection.dom().contains(channel),
        |channel: Seq<char>| channel_query(channel, selection[channel], live),
    )
}

/// The queries that the filters compile to, by channel: the including
/// filters are applied in order, then the excluding ones.
pub open spec fn compiled(
    includes: Seq<Seq<char>>,
    excludes: Seq<Seq<char>>,
    all: Option<Seq<Seq<char>>>,
) -> Result<Map<Seq<char>, Option<Seq<char>>>, CompileErrorView> {
    match applied_filters(Map::empty(), includes, includes.len() as int, false, all) {
        Err(e) => Err(e),
        Ok(selected) => match applied_filters(
            selected,
            excludes,
            excludes.len() as int,
            true,
            all,
        ) {
            Err(e) => Err(e),
            Ok(selection) => Ok(queries_of(selection, all is Some)),
        },
    }
}

/// The clauses collected for a channel, or `None` once the channel has
/// been taken out of the selection.
pub struct ChannelClauses {
    pub channel: Vec<char>,
    pub clauses: Option<Vec<Vec<char>>>,
}

/// The views of optional clauses.
pub open spec fn clauses_view(c: Option<Vec<Vec<char>>>) -> Option<Seq<Seq<char>>> {
    match c {
        Some(v) => Some(texts(v@)),
        None => None,
    }
}

/// Channels and their clauses, as pairs.
pub open spec fn clause_pairs(s: Seq<ChannelClauses>) -> Seq<(Seq<char>, Option<Seq<Seq<char>>>)> {
    Seq::new(s.len(), |i: int| (s[i].channel@, clauses_view(s[i].clauses)))
}

/// The selection that a map of optional clauses stands for.
pub open spec fn selected(m: Map<Seq<char>, Option<Seq<Seq<char>>>>) -> Selection {
    Map::new(|c: Seq<char>| m.dom().contains(c) && m[c] is Some, |c: Seq<char>| m[c]->0)
}

/// The selection that a list of channels and clauses stands for.
pub open spec fn selection_of(s: Seq<ChannelClauses>) -> Selection {
    selected(pairs_map(clause_pairs(s)))
}

fn find_channel(state: &Vec<ChannelClauses>, channel: &Vec<char>) -> (r: Option<usize>)
    ensures
        r is Some <==> pairs_map(clause_pairs(state@)).dom().contains(channel@),
        r matches Some(i) ==> i < state@.len() && state@[i as int].channel@ == channel@
            && pairs_map(clause_pairs(state@))[channel@] == clauses_view(
            state@[i as int].clauses,
        ) && last_index(clause_pairs(state@), channel@) == i,
{
    let ghost pairs = clause_pairs(state@);
    let mut i: usize = state.len();
    while i > 0
        invariant
            i <= state.len(),
            pairs == clause_pairs(state@),
            forall|j: int| i <= j < state.len() ==> (#[trigger] pairs[j]).0 != channel@,
        decreases i,
    {
        i -= 1;
        if same_chars(&state[i].channel, channel) {
            proof {
                lemma_last_index_is(pairs, channel@, i as int);
                lemma_lookup(pairs, channel@);
            }
            return Some(i);
        }
    }
    proof {
        lemma_absent(pairs, channel@);
    }
    None
}

fn copy_clauses(v: &Vec<Vec<char>>) -> (r: Vec<Vec<char>>)
    ensures
        texts(r@) == texts(v@),
{
    let mut r: Vec<Vec<char>> = Vec::new();
    let mut i: usize = 0;
    while i < v.len()
        invariant
            i <= v.len(),
            r@.len() == i,
            forall|j: int| 0 <= j < i ==> r@[j]@ == v@[j]@,
        decreases v.len() - i,
    {
        r.push(copy_chars(&v[i]));
        i += 1;
    }
    assert(texts(r@) == texts(v@));
    r
}

fn set_clauses(state: &mut Vec<ChannelClauses>, channel: &Vec<char>, clauses: Option<Vec<Vec<char>>>)
    ensures
        pairs_map(clause_pairs(final(state)@)) == pairs_map(clause_pairs(old(state)@)).insert(
            channel@,
            clauses_view(clauses),
        ),
{
    let ghost pairs = clause_pairs(state@);
    let ghost value = clauses_view(clauses);
    match find_channel(state, channel) {
        Some(i) => {
            proof {
                lemma_update(pairs, i as int, value);
            }
            state.set(i, ChannelClauses { channel: copy_chars(channel), clauses });
            assert(clause_pairs(state@) == pairs.update(i as int, (channel@, value)));
        },
        None => {
            proof {
                lemma_push(pairs, channel@, value);
            }
            state.push(ChannelClauses { channel: copy_chars(channel), clauses });
            assert(clause_pairs(state@) == pairs.push((channel@, value)));
        },
    }
}

fn known_clauses(state: &Vec<ChannelClauses>, channel: &Vec<char>) -> (r: Option<Vec<Vec<char>>>)
    ensures
        r is Some <==> selection_of(state@).dom().contains(channel@),
        r matches Some(v) ==> texts(v@) == selection_of(state@)[channel@],
{
    match find_channel(state, channel) {
        None => None,
        Some(i) => match &state[i].clauses {
            None => None,
            Some(v) => Some(copy_clauses(v)),
        },
    }
}

fn apply_to_channel(
    state: &mut Vec<ChannelClauses>,
    channel: &Vec<char>,
    filter: &CheckedFilter,
    suppress: bool,
    live: bool,
)
    ensures
        selection_of(final(state)@) == applied_to_channel(
            selection_of(old(state)@),
            channel@,
            filter@,
            suppress,
            live,
        ),
{
    let ghost before = selection_of(state@);
    let ghost stored = pairs_map(clause_pairs(state@));
    let query = xpath_chars(channel, filter, live);
    let known = known_clauses(state, channel);
    if query.len() == 0 {
        if suppress {
            set_clauses(state, channel, None);
            assert(selected(stored.insert(channel@, None)) =~= before.remove(channel@));
        } else {
            match known {
                Some(_) => {},
                None => {
                    let none: Vec<Vec<char>> = Vec::new();
                    assert(texts(none@) == Seq::<Seq<char>>::empty());
                    set_clauses(state, channel, Some(none));
                    assert(selected(stored.insert(channel@, Some(Seq::<Seq<char>>::empty())))
                        =~= before.insert(channel@, Seq::empty()));
                },
            }
        }
    } else {
        let mut clauses: Vec<Vec<char>> = match known {
            Some(v) => v,
            None => Vec::new(),
        };
        let ghost known_view = texts(clauses@);
        assert(known_view == if before.dom().contains(channel@) {
            before[channel@]
        } else {
            Seq::<Seq<char>>::empty()
        });
        if clauses.len() == 0 && suppress {
            clauses.push(to_chars("<Select>Event</Select>"));
            assert(texts(clauses@) == seq![select_all()]);
        }
        let ghost base = texts(clauses@);
        let node = clause_chars(channel, &query, suppress, live);
        clauses.push(node);
        assert(texts(clauses@) == base.push(clause(channel@, query@, suppress, live)));
        let ghost value = texts(clauses@);
        set_clauses(state, channel, Some(clauses));
        assert(selected(stored.insert(channel@, Some(value))) =~= before.insert(channel@, value));
    }
}

fn apply_filter(
    state: &mut Vec<ChannelClauses>,
    filter: &CheckedFilter,
    suppress: bool,
    live_all_channels: Option<&Vec<String>>,
)
    ensures
        ({
            let channels = target_channels(filter@, channel_names(live_all_channels));
            selection_of(final(state)@) == applied_to_channels(
                selection_of(old(state)@),
                channels,
                channels.len() as int,
                filter@,
                suppress,
                live_all_channels is Some,
            )
        }),
{
    let live = live_all_channels.is_some();
    let mut targets: Vec<Vec<char>> = Vec::new();
    if star_part(&filter.channel) {
        match live_all_channels {
            Some(names) => {
                let mut k: usize = 0;
                while k < names.len()
                    invariant
                        k <= names.len(),
                        targets@.len() == k,
                        forall|j: int| 0 <= j < k ==> targets@[j]@ == names@[j]@,
                    decreases names.len() - k,
                {
                    targets.push(to_chars(names[k].as_str()));
                    k += 1;
                }
            },
            None => {
                let mut star: Vec<char> = Vec::new();
                star.push('*');
                assert(star@ == seq!['*']);
                targets.push(star);
            },
        }
    } else {
        targets.push(copy_chars(&filter.channel));
    }
    let ghost channels = target_channels(filter@, channel_names(live_all_channels));
    assert(texts(targets@) == channels);
    let ghost start = selection_of(state@);
    let mut i: usize = 0;
    while i < targets.len()
        invariant
            i <= targets.len(),
            texts(targets@) == channels,
            live == (live_all_channels is Some),
            selection_of(state@) == applied_to_channels(
                start,
                channels,
                i as int,
                filter@,
                suppress,
                live,
            ),
        decreases targets.len() - i,
    {
        assert(channels[i as int] == targets@[i as int]@);
        apply_to_channel(state, &targets[i], filter, suppress, live);
        i += 1;
    }
}

/// The views of the names of the channels, where they are given.
pub open spec fn channel_names(all: Option<&Vec<String>>) -> Option<Seq<Seq<char>>> {
    match all {
        Some(names) => Some(Seq::new(names@.len(), |i: int| names@[i]@)),
        None => None,
    }
}

/// The views of a sequence of string slices.
pub open spec fn slices_view(s: Seq<&str>) -> Seq<Seq<char>> {
    Seq::new(s.len(), |i: int| s[i]@)
}

/// Once a filter has been refused, further filters do not change the
/// error.
pub proof fn lemma_filters_stay_refused(
    selection: Selection,
    filters: Seq<Seq<char>>,
    n: int,
    m: int,
    suppress: bool,
    all: Option<Seq<Seq<char>>>,
)
    requires
        n <= m,
        applied_filters(selection, filters, n, suppress, all) is Err,
    ensures
        applied_filters(selection, filters, m, suppress, all) == applied_filters(
            selection,
            filters,
            n,
            suppress,
            all,
        ),
    decreases m - n,
{
    if n < m {
        lemma_filters_stay_refused(selection, filters, n, m - 1, suppress, all);
    }
}

fn apply_filters(
    state: &mut Vec<ChannelClauses>,
    filters: &[&str],
    suppress: bool,
    live_all_channels: Option<&Vec<String>>,
) -> (r: Result<(), CompileError>)
    ensures
        ({
            let outcome = applied_filters(
                selection_of(old(state)@),
                slices_view(filters@),
                filters@.len() as int,
                suppress,
                channel_names(live_all_channels),
            );
            &&& r is Ok <==> outcome is Ok
            &&& r is Ok ==> outcome == Ok::<Selection, CompileErrorView>(
                selection_of(final(state)@),
            )
            &&& r matches Err(e) ==> outcome == Err::<Selection, CompileErrorView>(e@)
        }),
{
    let ghost start = selection_of(state@);
    let ghost all = channel_names(live_all_channels);
    let ghost texts = slices_view(filters@);
    let mut i: usize = 0;
    while i < filters.len()
        invariant
            i <= filters.len(),
            texts == slices_view(filters@),
            all == channel_names(live_all_channels),
            start == selection_of(old(state)@),
            applied_filters(start, texts, i as int, suppress, all) == Ok::<
                Selection,
                CompileErrorView,
            >(selection_of(state@)),
        decreases filters.len() - i,
    {
        assert(texts[i as int] == filters@[i as int]@);
        match check_filter(filters[i]) {
            Err(e) => {
                proof {
                    lemma_filters_stay_refused(
                        start,
                        texts,
                        i + 1,
                        filters@.len() as int,
                        suppress,
                        all,
                    );
                }
                return Err(e);
            },
            Ok(filter) => {
                apply_filter(state, &filter, suppress, live_all_channels);
            },
        }
        i += 1;
    }
    Ok(())
}

fn query_chars(channel: &Vec<char>, clauses: &Vec<Vec<char>>, live: bool) -> (out: Vec<char>)
    requires
        clauses@.len() > 0,
    ensures
        out@ == query_text(channel@, texts(clauses@), live),
{
    let mut out: Vec<char> = Vec::new();
    if live {
        push_str(&mut out, "<QueryList><Query Id=\"0\" Path=\"");
        push_all(&mut out, channel);
        push_str(&mut out, "\">\n  ");
    } else {
        push_str(&mut out, "<QueryList><Query Id=\"0\">\n  ");
    }
    let ghost head = out@;
    let ghost all = texts(clauses@);
    let between = to_chars("\n  ");
    let mut i: usize = 0;
    while i < clauses.len()
        invariant
            i <= clauses.len(),
            all == texts(clauses@),
            between@ == "\n  "@,
            out@ == head + joined(all.subrange(0, i as int), "\n  "@),
        decreases clauses.len() - i,
    {
        assert(all.subrange(0, i + 1).drop_last() == all.subrange(0, i as int));
        assert(all.subrange(0, i + 1).last() == clauses@[i as int]@);
        let ghost so_far = joined(all.subrange(0, i as int), "\n  "@);
        if i > 0 {
            push_all(&mut out, &between);
        }
        push_all(&mut out, &clauses[i]);
        assert(out@ == head + joined(all.subrange(0, i + 1), "\n  "@)) by {
            if i > 0 {
                assert(out@ == head + (so_far + "\n  "@ + clauses@[i as int]@));
            } else {
                assert(so_far == Seq::<char>::empty());
                assert(out@ == head + clauses@[i as int]@);
            }
        }
        i += 1;
    }
    assert(all.subrange(0, clauses.len() as int) == all);
    push_str(&mut out, "\n</Query></QueryList>");
    out
}

/// Channels and their queries, as pairs.
pub open spec fn query_pairs(s: Seq<ChannelQuery>) -> Seq<(Seq<char>, Option<Seq<char>>)> {
    Seq::new(
        s.len(),
        |i: int|
            (
                s[i].channel@,
                match s[i].query {
                    Some(q) => Some(q@),
                    None => None,
                },
            ),
    )
}

/// The queries that a list of channel queries stands for, by channel.
pub open spec fn queries_view(s: Seq<ChannelQuery>) -> Map<Seq<char>, Option<Seq<char>>> {
    pairs_map(query_pairs(s))
}

/// Whether no channel has more than one entry.
pub open spec fn channels_differ(queries: Seq<ChannelQuery>) -> bool {
    forall|a: int, b: int|
        0 <= a < b < queries.len() ==> (#[trigger] queries[a]).channel@ != (
        #[trigger] queries[b]).channel@
}

fn queries(state: &Vec<ChannelClauses>, live: bool) -> (out: Vec<ChannelQuery>)
    ensures
        queries_view(out@) == queries_of(selection_of(state@), live),
        channels_differ(out@),
{
    let ghost pairs = clause_pairs(state@);
    let mut out: Vec<ChannelQuery> = Vec::new();
    proof {
        lemma_settled_ends(pairs);
        assert(queries_view(out@) =~= queries_of(selected(settled(pairs, 0)), live));
    }
    let mut j: usize = 0;
    while j < state.len()
        invariant
            j <= state.len(),
            pairs == clause_pairs(state@),
            queries_view(out@) == queries_of(selected(settled(pairs, j as int)), live),
            channels_differ(out@),
            forall|a: int|
                0 <= a < out@.len() ==> last_index(pairs, (#[trigger] out@[a]).channel@) < j,
        decreases state.len() - j,
    {
        let entry = &state[j];
        let ghost done = settled(pairs, j as int);
        proof {
            assert(pairs[j as int] == (entry.channel@, clauses_view(entry.clauses)));
            lemma_settled_step(pairs, j as int);
            lemma_lookup(pairs, entry.channel@);
        }
        let counts = match find_channel(state, &entry.channel) {
            Some(at) => at == j,
            None => false,
        };
        if counts {
            match &entry.clauses {
                None => {
                    assert(queries_of(selected(done.insert(entry.channel@, None)), live)
                        =~= queries_of(selected(done), live));
                },
                Some(clauses) => {
                    let query = if clauses.len() == 0 {
                        None
                    } else {
                        Some(from_chars(&query_chars(&entry.channel, clauses, live)))
                    };
                    let ghost mine = query_pairs(out@);
                    let ghost value = channel_query(entry.channel@, texts(clauses@), live);
                    proof {
                        lemma_push(mine, entry.channel@, value);
                    }
                    let ghost before = out@;
                    out.push(ChannelQuery { channel: from_chars(&entry.channel), query });
                    assert(query_pairs(out@) == mine.push((entry.channel@, value)));
                    assert forall|a: int| 0 <= a < out@.len() implies last_index(
                        pairs,
                        (#[trigger] out@[a]).channel@,
                    ) < j + 1 by {
                        if a < before.len() {
                            assert(out@[a] == before[a]);
                        }
                    }
                    assert(channels_differ(out@)) by {
                        assert forall|a: int, b: int| 0 <= a < b < out@.len() implies (
                        #[trigger] out@[a]).channel@ != (#[trigger] out@[b]).channel@ by {
                            assert(out@[a] == before[a]);
                            if b < before.len() {
                                assert(out@[b] == before[b]);
                            }
                        }
                    }
                    assert(queries_of(
                        selected(done.insert(entry.channel@, Some(texts(clauses@)))),
                        live,
                    ) =~= queries_of(selected(done), live).insert(entry.channel@, value));
                },
            }
        }
        j += 1;
    }
    out
}

/// Compiles including and excluding filters into one query per channel:
/// the result has one entry for each channel that is selected.
///
/// With `live_all_channels`, a filter for every channel is applied to
/// each of these channels, and each query names its channel. Without it,
/// such a filter goes under the channel `*`, and a filter that names a
/// channel tests the channel inside its clause.
pub fn xml_query_from_filters(
    includes: &[&str],
    excludes: &[&str],
    live_all_channels: Option<&Vec<String>>,
) -> (r: Result<Vec<ChannelQuery>, CompileError>)
    ensures
        ({
            let outcome = compiled(
                slices_view(includes@),
                slices_view(excludes@),
                channel_names(live_all_channels),
            );
            &&& r is Ok <==> outcome is Ok
            &&& r matches Ok(v) ==> channels_differ(v@) && outcome == Ok::<
                Map<Seq<char>, Option<Seq<char>>>,
                CompileErrorView,
            >(queries_view(v@))
            &&& r matches Err(e) ==> outcome == Err::<
                Map<Seq<char>, Option<Seq<char>>>,
                CompileErrorView,
            >(e@)
        }),
{
    let mut state: Vec<ChannelClauses> = Vec::new();
    assert(selection_of(state@) =~= Map::<Seq<char>, Seq<Seq<char>>>::empty());
    match apply_filters(&mut state, includes, false, live_all_channels) {
        Err(e) => {
            return Err(e);
        },
        Ok(_) => {},
    }
    match apply_filters(&mut state, excludes, true, live_all_channels) {
        Err(e) => {
            return Err(e);
        },
        Ok(_) => {},
    }
    Ok(queries(&state, live_all_channels.is_some()))
}

/// The query of a channel among compiled queries, if the channel has an
/// entry.
pub fn query_of_channel<'a>(queries: &'a Vec<ChannelQuery>, channel: &str) -> (r: Option<
    &'a Option<String>,
>)
    ensures
        r is Some <==> queries_view(queries@).dom().contains(channel@),
        r matches Some(q) ==> queries_view(queries@)[channel@] == match *q {
            Some(text) => Some(text@),
            None => None,
        },
{
    let ghost pairs = query_pairs(queries@);
    let mut i: usize = queries.len();
    while i > 0
        invariant
            i <= queries.len(),
            pairs == query_pairs(queries@),
            forall|j: int| i <= j < queries.len() ==> (#[trigger] pairs[j]).0 != channel@,
        decreases i,
    {
        i -= 1;
        if crate::text::same_text(queries[i].channel.as_str(), channel) {
            proof {
                lemma_last_index_is(pairs, channel@, i as int);
                lemma_lookup(pairs, channel@);
            }
            return Some(&queries[i].query);
        }
    }
    proof {
        lemma_absent(pairs, channel@);
    }
    None
}

} // verus!
