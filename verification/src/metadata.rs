//! Event and provider definitions, and the catalog that holds them.

use crate::assoc::{
    distinct_keys, last_index, lemma_absent, lemma_distinct_keys, lemma_last_index_is,
    lemma_lookup, lemma_merge_nothing, lemma_merge_one_more, lemma_merge_twice, lemma_push,
    lemma_settled_ends, lemma_settled_step, lemma_update, merged_maps, pairs_map, settled,
};
use crate::formatting::EvtVariant;
use crate::text::same_text;
use crate::windows::{
    get_evt_provider_events, provider_events, DescribedEvent, NameTables, NO_MESSAGE,
};
use vstd::prelude::*;
use vstd::string::*;

verus! {

/// The view of an optional string.
pub open spec fn opt_text(o: Option<String>) -> Option<Seq<char>> {
    match o {
        Some(s) => Some(s@),
        None => None,
    }
}

/// The views of a sequence of strings.
pub open spec fn texts_of(v: Seq<String>) -> Seq<Seq<char>> {
    Seq::new(v.len(), |i: int| v[i]@)
}

/// A copy of an optional string.
pub fn clone_opt_text(o: &Option<String>) -> (r: Option<String>)
    ensures
        opt_text(r) == opt_text(*o),
{
    match o {
        Some(s) => Some(s.clone()),
        None => None,
    }
}

/// A copy of a vector of strings.
pub fn clone_texts(v: &Vec<String>) -> (r: Vec<String>)
    ensures
        texts_of(r@) == texts_of(v@),
{
    let mut r: Vec<String> = Vec::new();
    let mut i: usize = 0;
    while i < v.len()
        invariant
            i <= v.len(),
            r@.len() == i,
            forall|j: int| 0 <= j < i ==> r@[j]@ == v@[j]@,
        decreases v.len() - i,
    {
        r.push(v[i].clone());
        i += 1;
    }
    assert(texts_of(r@) == texts_of(v@));
    r
}

/// The name and declared type of one field of an event.
#[derive(Debug, PartialEq, Eq)]
pub struct EventFieldDefinition {
    pub name: String,
    /// The nominal type tag from the provider's schema.
    pub out_type: String,
}

/// The mathematical content of an [`EventFieldDefinition`].
pub struct FieldView {
    pub name: Seq<char>,
    pub out_type: Seq<char>,
}

impl View for EventFieldDefinition {
    type V = FieldView;

    open spec fn view(&self) -> FieldView {
        FieldView { name: self.name@, out_type: self.out_type@ }
    }
}

impl Clone for EventFieldDefinition {
    fn clone(&self) -> (r: Self)
        ensures
            r@ == self@,
    {
        EventFieldDefinition { name: self.name.clone(), out_type: self.out_type.clone() }
    }
}

/// The views of a sequence of field definitions.
pub open spec fn fields_of(v: Seq<EventFieldDefinition>) -> Seq<FieldView> {
    Seq::new(v.len(), |i: int| v[i]@)
}

/// A copy of a vector of field definitions.
pub fn clone_fields(v: &Vec<EventFieldDefinition>) -> (r: Vec<EventFieldDefinition>)
    ensures
        fields_of(r@) == fields_of(v@),
{
    let mut r: Vec<EventFieldDefinition> = Vec::new();
    let mut i: usize = 0;
    while i < v.len()
        invariant
            i <= v.len(),
            r@.len() == i,
            forall|j: int| 0 <= j < i ==> r@[j]@ == v@[j]@,
        decreases v.len() - i,
    {
        r.push(v[i].clone());
        i += 1;
    }
    assert(fields_of(r@) == fields_of(v@));
    r
}

/// The schema of one event of one provider, in one version.
#[derive(Debug, PartialEq, Eq)]
pub struct EventDefinition {
    pub channel: Option<String>,
    /// The message template, if the provider has one for the event.
    pub message: Option<String>,
    pub level: u32,
    pub level_name: Option<String>,
    pub opcode: u32,
    pub opcode_name: Option<String>,
    pub task: u32,
    pub task_name: Option<String>,
    pub keywords: u64,
    pub keyword_names: Vec<String>,
    /// Field `i` describes value `i` of the event's buffer.
    pub fields: Vec<EventFieldDefinition>,
}

/// The mathematical content of an [`EventDefinition`].
pub struct DefinitionView {
    pub channel: Option<Seq<char>>,
    pub message: Option<Seq<char>>,
    pub level: u32,
    pub level_name: Option<Seq<char>>,
    pub opcode: u32,
    pub opcode_name: Option<Seq<char>>,
    pub task: u32,
    pub task_name: Option<Seq<char>>,
    pub keywords: u64,
    pub keyword_names: Seq<Seq<char>>,
    pub fields: Seq<FieldView>,
}

impl View for EventDefinition {
    type V = DefinitionView;

    open spec fn view(&self) -> DefinitionView {
        DefinitionView {
            channel: opt_text(self.channel),
            message: opt_text(self.message),
            level: self.level,
            level_name: opt_text(self.level_name),
            opcode: self.opcode,
            opcode_name: opt_text(self.opcode_name),
            task: self.task,
            task_name: opt_text(self.task_name),
            keywords: self.keywords,
            keyword_names: texts_of(self.keyword_names@),
            fields: fields_of(self.fields@),
        }
    }
}

impl Clone for EventDefinition {
    fn clone(&self) -> (r: Self)
        ensures
            r@ == self@,
    {
        EventDefinition {
            channel: clone_opt_text(&self.channel),
            message: clone_opt_text(&self.message),
            level: self.level,
            level_name: clone_opt_text(&self.level_name),
            opcode: self.opcode,
            opcode_name: clone_opt_text(&self.opcode_name),
            task: self.task,
            task_name: clone_opt_text(&self.task_name),
            keywords: self.keywords,
            keyword_names: clone_texts(&self.keyword_names),
            fields: clone_fields(&self.fields),
        }
    }
}

/// The definition that stands for an event of which nothing is known: no
/// message, no names, no fields, and zero for every code.
pub open spec fn default_definition() -> DefinitionView {
    DefinitionView {
        channel: None,
        message: None,
        level: 0,
        level_name: None,
        opcode: 0,
        opcode_name: None,
        task: 0,
        task_name: None,
        keywords: 0,
        keyword_names: Seq::empty(),
        fields: Seq::empty(),
    }
}

impl EventDefinition {
    /// The definition of an event of which nothing is known.
    pub fn unknown() -> (r: Self)
        ensures
            r@ == default_definition(),
    {
        let r = EventDefinition {
            channel: None,
            message: None,
            level: 0,
            level_name: None,
            opcode: 0,
            opcode_name: None,
            task: 0,
            task_name: None,
            keywords: 0,
            keyword_names: Vec::new(),
            fields: Vec::new(),
        };
        assert(r@.keyword_names == Seq::<Seq<char>>::empty());
        assert(r@.fields == Seq::<FieldView>::empty());
        r
    }
}

/// The definition of an event in one of its versions.
#[derive(Debug, PartialEq, Eq)]
pub struct VersionEntry {
    pub version: u64,
    pub definition: EventDefinition,
}

/// The definitions of an event, by version. Where a version occurs more
/// than once, its last entry counts.
#[derive(Debug, PartialEq, Eq)]
pub struct EventEntry {
    pub event_id: u64,
    pub versions: Vec<VersionEntry>,
}

/// Versions and their definitions, as pairs.
pub open spec fn version_pairs(s: Seq<VersionEntry>) -> Seq<(u64, DefinitionView)> {
    Seq::new(s.len(), |i: int| (s[i].version, s[i].definition@))
}

/// The map from version to definition that a list of entries stands for.
pub open spec fn versions_view(s: Seq<VersionEntry>) -> Map<u64, DefinitionView> {
    pairs_map(version_pairs(s))
}

/// Event identifiers and their versions, as pairs.
pub open spec fn event_pairs(s: Seq<EventEntry>) -> Seq<(u64, Map<u64, DefinitionView>)> {
    Seq::new(s.len(), |i: int| (s[i].event_id, versions_view(s[i].versions@)))
}

/// The map from event identifier to versions that a list of entries
/// stands for.
pub open spec fn events_view(s: Seq<EventEntry>) -> Map<u64, Map<u64, DefinitionView>> {
    pairs_map(event_pairs(s))
}

/// What is known of one provider.
#[derive(Debug, PartialEq, Eq)]
pub struct ProviderMetadata {
    pub guid: Option<String>,
    pub resource_file_path: Option<String>,
    pub parameter_file_path: Option<String>,
    pub message_file_path: Option<String>,
    pub message: Option<String>,
    /// The provider's events. Where an identifier occurs more than once,
    /// its last entry counts.
    pub events: Vec<EventEntry>,
}

/// The mathematical content of [`ProviderMetadata`].
pub struct ProviderView {
    pub guid: Option<Seq<char>>,
    pub resource_file_path: Option<Seq<char>>,
    pub parameter_file_path: Option<Seq<char>>,
    pub message_file_path: Option<Seq<char>>,
    pub message: Option<Seq<char>>,
    pub events: Map<u64, Map<u64, DefinitionView>>,
}

impl View for ProviderMetadata {
    type V = ProviderView;

    open spec fn view(&self) -> ProviderView {
        ProviderView {
            guid: opt_text(self.guid),
            resource_file_path: opt_text(self.resource_file_path),
            parameter_file_path: opt_text(self.parameter_file_path),
            message_file_path: opt_text(self.message_file_path),
            message: opt_text(self.message),
            events: events_view(self.events@),
        }
    }
}

/// A provider's name and what is known of the provider.
#[derive(Debug, PartialEq, Eq)]
pub struct ProviderEntry {
    pub name: String,
    pub metadata: ProviderMetadata,
}

/// The catalog: what is known of each provider, by the provider's exact
/// name. Where a name occurs more than once, its last entry counts.
#[derive(Debug, PartialEq, Eq)]
pub struct Metadata {
    pub providers: Vec<ProviderEntry>,
}

/// Provider names and what is known of each, as pairs.
pub open spec fn provider_pairs(s: Seq<ProviderEntry>) -> Seq<(Seq<char>, ProviderView)> {
    Seq::new(s.len(), |i: int| (s[i].name@, s[i].metadata@))
}

impl View for Metadata {
    type V = Map<Seq<char>, ProviderView>;

    open spec fn view(&self) -> Map<Seq<char>, ProviderView> {
        pairs_map(provider_pairs(self.providers@))
    }
}

/// A copy of a list of versions.
pub fn clone_versions(v: &Vec<VersionEntry>) -> (r: Vec<VersionEntry>)
    ensures
        version_pairs(r@) == version_pairs(v@),
        versions_view(r@) == versions_view(v@),
{
    let mut r: Vec<VersionEntry> = Vec::new();
    let mut i: usize = 0;
    while i < v.len()
        invariant
            i <= v.len(),
            r@.len() == i,
            forall|j: int|
                0 <= j < i ==> r@[j].version == v@[j].version && r@[j].definition@
                    == v@[j].definition@,
        decreases v.len() - i,
    {
        r.push(VersionEntry { version: v[i].version, definition: v[i].definition.clone() });
        i += 1;
    }
    assert(version_pairs(r@) == version_pairs(v@));
    r
}

/// A copy of a list of events.
pub fn clone_events(v: &Vec<EventEntry>) -> (r: Vec<EventEntry>)
    ensures
        event_pairs(r@) == event_pairs(v@),
        events_view(r@) == events_view(v@),
{
    let mut r: Vec<EventEntry> = Vec::new();
    let mut i: usize = 0;
    while i < v.len()
        invariant
            i <= v.len(),
            r@.len() == i,
            forall|j: int|
                0 <= j < i ==> r@[j].event_id == v@[j].event_id && versions_view(r@[j].versions@)
                    == versions_view(v@[j].versions@),
        decreases v.len() - i,
    {
        r.push(EventEntry { event_id: v[i].event_id, versions: clone_versions(&v[i].versions) });
        i += 1;
    }
    assert(event_pairs(r@) == event_pairs(v@));
    r
}

impl Clone for ProviderMetadata {
    fn clone(&self) -> (r: Self)
        ensures
            r@ == self@,
    {
        ProviderMetadata {
            guid: clone_opt_text(&self.guid),
            resource_file_path: clone_opt_text(&self.resource_file_path),
            parameter_file_path: clone_opt_text(&self.parameter_file_path),
            message_file_path: clone_opt_text(&self.message_file_path),
            message: clone_opt_text(&self.message),
            events: clone_events(&self.events),
        }
    }
}

/// The position of the entry that counts for a version, if there is one.
pub fn find_version(entries: &Vec<VersionEntry>, version: u64) -> (r: Option<usize>)
    ensures
        r is Some <==> versions_view(entries@).dom().contains(version),
        r matches Some(i) ==> i < entries@.len() && entries@[i as int].version == version
            && versions_view(entries@)[version] == entries@[i as int].definition@ && last_index(
            version_pairs(entries@),
            version,
        ) == i,
{
    let ghost pairs = version_pairs(entries@);
    let mut i: usize = entries.len();
    while i > 0
        invariant
            i <= entries.len(),
            pairs == version_pairs(entries@),
            forall|j: int| i <= j < entries.len() ==> (#[trigger] pairs[j]).0 != version,
        decreases i,
    {
        i -= 1;
        if entries[i].version == version {
            proof {
                lemma_last_index_is(pairs, version, i as int);
                lemma_lookup(pairs, version);
            }
            return Some(i);
        }
    }
    proof {
        lemma_absent(pairs, version);
    }
    None
}

/// The position of the entry that counts for an event, if there is one.
pub fn find_event(entries: &Vec<EventEntry>, event_id: u64) -> (r: Option<usize>)
    ensures
        r is Some <==> events_view(entries@).dom().contains(event_id),
        r matches Some(i) ==> i < entries@.len() && entries@[i as int].event_id == event_id
            && events_view(entries@)[event_id] == versions_view(entries@[i as int].versions@)
            && last_index(event_pairs(entries@), event_id) == i,
{
    let ghost pairs = event_pairs(entries@);
    let mut i: usize = entries.len();
    while i > 0
        invariant
            i <= entries.len(),
            pairs == event_pairs(entries@),
            forall|j: int| i <= j < entries.len() ==> (#[trigger] pairs[j]).0 != event_id,
        decreases i,
    {
        i -= 1;
        if entries[i].event_id == event_id {
            proof {
                lemma_last_index_is(pairs, event_id, i as int);
                lemma_lookup(pairs, event_id);
            }
            return Some(i);
        }
    }
    proof {
        lemma_absent(pairs, event_id);
    }
    None
}

/// The position of the entry that counts for a provider, if there is one.
pub fn find_provider(entries: &Vec<ProviderEntry>, name: &str) -> (r: Option<usize>)
    ensures
        r is Some <==> pairs_map(provider_pairs(entries@)).dom().contains(name@),
        r matches Some(i) ==> i < entries@.len() && entries@[i as int].name@ == name@ && pairs_map(
            provider_pairs(entries@),
        )[name@] == entries@[i as int].metadata@ && last_index(provider_pairs(entries@), name@)
            == i,
{
    let ghost pairs = provider_pairs(entries@);
    let mut i: usize = entries.len();
    while i > 0
        invariant
            i <= entries.len(),
            pairs == provider_pairs(entries@),
            forall|j: int| i <= j < entries.len() ==> (#[trigger] pairs[j]).0 != name@,
        decreases i,
    {
        i -= 1;
        if same_text(entries[i].name.as_str(), name) {
            proof {
                lemma_last_index_is(pairs, name@, i as int);
                lemma_lookup(pairs, name@);
            }
            return Some(i);
        }
    }
    proof {
        lemma_absent(pairs, name@);
    }
    None
}

/// The definition that the catalog has for an event, or the default one
/// where the provider, the event or the version is not in the catalog.
pub open spec fn resolved(
    catalog: Map<Seq<char>, ProviderView>,
    provider: Seq<char>,
    event_id: u64,
    version: u64,
) -> DefinitionView {
    if catalog.dom().contains(provider) && catalog[provider].events.dom().contains(event_id)
        && catalog[provider].events[event_id].dom().contains(version) {
        catalog[provider].events[event_id][version]
    } else {
        default_definition()
    }
}

/// An empty catalog has the default definition for every event.
pub proof fn lemma_resolved_in_empty_catalog(provider: Seq<char>, event_id: u64, version: u64)
    ensures
        resolved(Map::empty(), provider, event_id, version) == default_definition(),
{
}

impl Metadata {
    /// The catalog that knows no provider.
    pub fn new() -> (r: Self)
        ensures
            r@ == Map::<Seq<char>, ProviderView>::empty(),
    {
        Metadata { providers: Vec::new() }
    }

    /// The number of providers that the catalog knows.
    pub fn len(&self) -> (n: usize)
        ensures
            self@.dom().finite(),
            n == self@.dom().len(),
    {
        let ghost pairs = provider_pairs(self.providers@);
        let mut count: usize = 0;
        let mut i: usize = 0;
        while i < self.providers.len()
            invariant
                i <= self.providers.len(),
                pairs == provider_pairs(self.providers@),
                count <= i,
                count == distinct_keys(pairs.subrange(0, i as int)),
            decreases self.providers.len() - i,
        {
            let name = self.providers[i].name.as_str();
            let ghost earlier = pairs.subrange(0, i as int);
            let mut seen: bool = false;
            let mut j: usize = 0;
            while j < i && !seen
                invariant
                    j <= i,
                    i < self.providers.len(),
                    pairs == provider_pairs(self.providers@),
                    earlier == pairs.subrange(0, i as int),
                    !seen ==> forall|k: int| 0 <= k < j ==> (#[trigger] earlier[k]).0 != name@,
                    seen ==> pairs_map(earlier).dom().contains(name@),
                decreases i - j, if seen { 0int } else { 1int },
            {
                if same_text(self.providers[j].name.as_str(), name) {
                    proof {
                        assert(earlier[j as int].0 == name@);
                        lemma_lookup(earlier, name@);
                    }
                    seen = true;
                } else {
                    j += 1;
                }
            }
            proof {
                lemma_lookup(earlier, name@);
                let next = pairs.subrange(0, i + 1);
                assert(next.drop_last() == earlier);
                assert(next.last().0 == name@);
            }
            if !seen {
                count += 1;
            }
            i += 1;
        }
        proof {
            assert(pairs.subrange(0, self.providers.len() as int) == pairs);
            lemma_distinct_keys(pairs);
        }
        count
    }

    /// Sets what is known of a provider, replacing what was known of it.
    pub fn insert(&mut self, name: String, metadata: ProviderMetadata)
        ensures
            final(self)@ == old(self)@.insert(name@, metadata@),
    {
        let ghost pairs = provider_pairs(self.providers@);
        match find_provider(&self.providers, name.as_str()) {
            Some(i) => {
                proof {
                    lemma_update(pairs, i as int, metadata@);
                }
                self.providers.set(i, ProviderEntry { name, metadata });
                assert(provider_pairs(self.providers@) == pairs.update(
                    i as int,
                    (name@, metadata@),
                ));
            },
            None => {
                proof {
                    lemma_push(pairs, name@, metadata@);
                }
                self.providers.push(ProviderEntry { name, metadata });
                assert(provider_pairs(self.providers@) == pairs.push((name@, metadata@)));
            },
        }
    }

    /// What is known of a provider, if anything.
    pub fn get(&self, name: &str) -> (r: Option<&ProviderMetadata>)
        ensures
            r is Some <==> self@.dom().contains(name@),
            r matches Some(m) ==> m@ == self@[name@],
    {
        match find_provider(&self.providers, name) {
            Some(i) => Some(&self.providers[i].metadata),
            None => None,
        }
    }

    /// The definition of an event. An event that the catalog does not
    /// know has the default definition: this never fails.
    pub fn resolve(&self, provider: &str, event_id: u64, version: u64) -> (r: EventDefinition)
        ensures
            r@ == resolved(self@, provider@, event_id, version),
    {
        match find_provider(&self.providers, provider) {
            None => EventDefinition::unknown(),
            Some(p) => {
                let events = &self.providers[p].metadata.events;
                match find_event(events, event_id) {
                    None => EventDefinition::unknown(),
                    Some(e) => {
                        let versions = &events[e].versions;
                        match find_version(versions, version) {
                            None => EventDefinition::unknown(),
                            Some(v) => versions[v].definition.clone(),
                        }
                    },
                }
            },
        }
    }
}

/// A definition with another laid over it: the message of the other
/// where it has one, and for each field of the first the field of the
/// other at the same position where it has one. Everything else, and the
/// number of fields, stays.
pub open spec fn merged_definition(known: DefinitionView, incoming: DefinitionView)
    -> DefinitionView {
    DefinitionView {
        message: if incoming.message is Some {
            incoming.message
        } else {
            known.message
        },
        fields: Seq::new(
            known.fields.len(),
            |i: int|
                if i < incoming.fields.len() {
                    incoming.fields[i]
                } else {
                    known.fields[i]
                },
        ),
        ..known
    }
}

/// How two definitions of the same event and version combine.
pub open spec fn combine_definitions() -> spec_fn(DefinitionView, DefinitionView)
    -> DefinitionView {
    |x: DefinitionView, y: DefinitionView| merged_definition(x, y)
}

/// The versions of an event merged with further versions of it.
pub open spec fn merged_versions(
    known: Map<u64, DefinitionView>,
    incoming: Map<u64, DefinitionView>,
) -> Map<u64, DefinitionView> {
    merged_maps(known, incoming, combine_definitions())
}

/// How the versions of the same event combine.
pub open spec fn combine_versions() -> spec_fn(
    Map<u64, DefinitionView>,
    Map<u64, DefinitionView>,
) -> Map<u64, DefinitionView> {
    |x: Map<u64, DefinitionView>, y: Map<u64, DefinitionView>| merged_versions(x, y)
}

/// The events of a provider merged with further events of it.
pub open spec fn merged_events(
    known: Map<u64, Map<u64, DefinitionView>>,
    incoming: Map<u64, Map<u64, DefinitionView>>,
) -> Map<u64, Map<u64, DefinitionView>> {
    merged_maps(known, incoming, combine_versions())
}

/// What is known of a provider merged with further knowledge of it: the
/// identifier of the other where it has one, the events merged, and
/// everything else as it was.
pub open spec fn merged_provider(known: ProviderView, incoming: ProviderView) -> ProviderView {
    ProviderView {
        guid: if incoming.guid is Some {
            incoming.guid
        } else {
            known.guid
        },
        events: merged_events(known.events, incoming.events),
        ..known
    }
}

/// How two records of the same provider combine.
pub open spec fn combine_providers() -> spec_fn(ProviderView, ProviderView) -> ProviderView {
    |x: ProviderView, y: ProviderView| merged_provider(x, y)
}

/// A catalog merged with another: a provider, event or version that only
/// one of them has is taken as it is, and one that both have is merged.
pub open spec fn merged_catalog(
    known: Map<Seq<char>, ProviderView>,
    incoming: Map<Seq<char>, ProviderView>,
) -> Map<Seq<char>, ProviderView> {
    merged_maps(known, incoming, combine_providers())
}

/// Lays a definition over another.
pub fn merge_definition(known: &mut EventDefinition, incoming: &EventDefinition)
    ensures
        final(known)@ == merged_definition(old(known)@, incoming@),
{
    match &incoming.message {
        Some(m) => {
            known.message = Some(m.clone());
        },
        None => {},
    }
    let n: usize = if known.fields.len() < incoming.fields.len() {
        known.fields.len()
    } else {
        incoming.fields.len()
    };
    let mut i: usize = 0;
    while i < n
        invariant
            i <= n,
            n <= incoming.fields@.len(),
            n <= known.fields@.len(),
            known.fields@.len() == old(known).fields@.len(),
            forall|j: int| 0 <= j < i ==> known.fields@[j]@ == incoming.fields@[j]@,
            forall|j: int|
                i <= j < known.fields@.len() ==> known.fields@[j]@ == old(known).fields@[j]@,
            known.channel == old(known).channel,
            known.level == old(known).level,
            known.level_name == old(known).level_name,
            known.opcode == old(known).opcode,
            known.opcode_name == old(known).opcode_name,
            known.task == old(known).task,
            known.task_name == old(known).task_name,
            known.keywords == old(known).keywords,
            known.keyword_names == old(known).keyword_names,
            opt_text(known.message) == if incoming@.message is Some {
                incoming@.message
            } else {
                old(known)@.message
            },
        decreases n - i,
    {
        known.fields.set(i, incoming.fields[i].clone());
        i += 1;
    }
    assert(known@.fields == merged_definition(old(known)@, incoming@).fields);
}

/// Merges further versions into the versions of an event.
pub fn merge_versions(known: &mut Vec<VersionEntry>, incoming: &Vec<VersionEntry>)
    ensures
        versions_view(final(known)@) == merged_versions(
            versions_view(old(known)@),
            versions_view(incoming@),
        ),
{
    let ghost start = versions_view(known@);
    let ghost pairs = version_pairs(incoming@);
    proof {
        lemma_settled_ends(pairs);
        lemma_merge_nothing(start, combine_definitions());
    }
    let mut j: usize = 0;
    while j < incoming.len()
        invariant
            j <= incoming.len(),
            pairs == version_pairs(incoming@),
            versions_view(known@) == merged_maps(start, settled(pairs, j as int), combine_definitions()),
        decreases incoming.len() - j,
    {
        let version = incoming[j].version;
        let ghost done = settled(pairs, j as int);
        let ghost value = incoming@[j as int].definition@;
        proof {
            assert(pairs[j as int] == (version, value));
            lemma_settled_step(pairs, j as int);
            lemma_lookup(pairs, version);
        }
        let counts = match find_version(incoming, version) {
            Some(at) => at == j,
            None => false,
        };
        if counts {
            proof {
                lemma_merge_one_more(start, done, version, value, combine_definitions());
            }
            let ghost mine = version_pairs(known@);
            match find_version(known, version) {
                None => {
                    let definition = incoming[j].definition.clone();
                    proof {
                        lemma_push(mine, version, definition@);
                    }
                    known.push(VersionEntry { version, definition });
                    assert(version_pairs(known@) == mine.push((version, value)));
                },
                Some(at) => {
                    let mut definition = known[at].definition.clone();
                    merge_definition(&mut definition, &incoming[j].definition);
                    proof {
                        lemma_update(mine, at as int, definition@);
                    }
                    known.set(at, VersionEntry { version, definition });
                    assert(version_pairs(known@) == mine.update(
                        at as int,
                        (version, definition@),
                    ));
                },
            }
        }
        j += 1;
    }
}

/// Merges further events into the events of a provider.
pub fn merge_events(known: &mut Vec<EventEntry>, incoming: &Vec<EventEntry>)
    ensures
        events_view(final(known)@) == merged_events(
            events_view(old(known)@),
            events_view(incoming@),
        ),
{
    let ghost start = events_view(known@);
    let ghost pairs = event_pairs(incoming@);
    proof {
        lemma_settled_ends(pairs);
        lemma_merge_nothing(start, combine_versions());
    }
    let mut j: usize = 0;
    while j < incoming.len()
        invariant
            j <= incoming.len(),
            pairs == event_pairs(incoming@),
            events_view(known@) == merged_maps(start, settled(pairs, j as int), combine_versions()),
        decreases incoming.len() - j,
    {
        let event_id = incoming[j].event_id;
        let ghost done = settled(pairs, j as int);
        let ghost value = versions_view(incoming@[j as int].versions@);
        proof {
            assert(pairs[j as int] == (event_id, value));
            lemma_settled_step(pairs, j as int);
            lemma_lookup(pairs, event_id);
        }
        let counts = match find_event(incoming, event_id) {
            Some(at) => at == j,
            None => false,
        };
        if counts {
            proof {
                lemma_merge_one_more(start, done, event_id, value, combine_versions());
            }
            let ghost mine = event_pairs(known@);
            match find_event(known, event_id) {
                None => {
                    let versions = clone_versions(&incoming[j].versions);
                    proof {
                        lemma_push(mine, event_id, value);
                    }
                    known.push(EventEntry { event_id, versions });
                    assert(event_pairs(known@) == mine.push((event_id, value)));
                },
                Some(at) => {
                    let mut versions = clone_versions(&known[at].versions);
                    merge_versions(&mut versions, &incoming[j].versions);
                    let ghost merged = versions_view(versions@);
                    proof {
                        lemma_update(mine, at as int, merged);
                    }
                    known.set(at, EventEntry { event_id, versions });
                    assert(event_pairs(known@) == mine.update(at as int, (event_id, merged)));
                },
            }
        }
        j += 1;
    }
}

/// Merges further knowledge of a provider into what is known of it.
pub fn merge_provider(known: &mut ProviderMetadata, incoming: &ProviderMetadata)
    ensures
        final(known)@ == merged_provider(old(known)@, incoming@),
{
    match &incoming.guid {
        Some(g) => {
            known.guid = Some(g.clone());
        },
        None => {},
    }
    merge_events(&mut known.events, &incoming.events);
}

/// Merges a catalog into another. A provider, an event or a version that
/// `known_meta` does not have is taken over whole. Where both have a
/// definition, the newer message wins if there is one, and the fields of
/// the known definition are overwritten position by position, as far as
/// both lists reach.
pub fn update_metadata_with(known_meta: &mut Metadata, new_meta: &Metadata)
    ensures
        final(known_meta)@ == merged_catalog(old(known_meta)@, new_meta@),
{
    let ghost start = known_meta@;
    let ghost pairs = provider_pairs(new_meta.providers@);
    proof {
        lemma_settled_ends(pairs);
        lemma_merge_nothing(start, combine_providers());
    }
    let mut j: usize = 0;
    while j < new_meta.providers.len()
        invariant
            j <= new_meta.providers.len(),
            pairs == provider_pairs(new_meta.providers@),
            known_meta@ == merged_maps(start, settled(pairs, j as int), combine_providers()),
        decreases new_meta.providers.len() - j,
    {
        let entry = &new_meta.providers[j];
        let ghost done = settled(pairs, j as int);
        let ghost value = entry.metadata@;
        proof {
            assert(pairs[j as int] == (entry.name@, value));
            lemma_settled_step(pairs, j as int);
            lemma_lookup(pairs, entry.name@);
        }
        let counts = match find_provider(&new_meta.providers, entry.name.as_str()) {
            Some(at) => at == j,
            None => false,
        };
        if counts {
            proof {
                lemma_merge_one_more(start, done, entry.name@, value, combine_providers());
            }
            let ghost mine = provider_pairs(known_meta.providers@);
            match find_provider(&known_meta.providers, entry.name.as_str()) {
                None => {
                    let metadata = entry.metadata.clone();
                    proof {
                        lemma_push(mine, entry.name@, value);
                    }
                    known_meta.providers.push(ProviderEntry { name: entry.name.clone(), metadata });
                    assert(provider_pairs(known_meta.providers@) == mine.push(
                        (entry.name@, value),
                    ));
                },
                Some(at) => {
                    let mut metadata = known_meta.providers[at].metadata.clone();
                    merge_provider(&mut metadata, &entry.metadata);
                    proof {
                        lemma_update(mine, at as int, metadata@);
                    }
                    known_meta.providers.set(
                        at,
                        ProviderEntry { name: entry.name.clone(), metadata },
                    );
                    assert(provider_pairs(known_meta.providers@) == mine.update(
                        at as int,
                        (entry.name@, metadata@),
                    ));
                },
            }
        }
        j += 1;
    }
}

/// Laying the same definition over a second time changes nothing, and a
/// definition laid over itself is itself.
pub proof fn lemma_definition_twice(known: DefinitionView, incoming: DefinitionView)
    ensures
        merged_definition(merged_definition(known, incoming), incoming) == merged_definition(
            known,
            incoming,
        ),
        merged_definition(incoming, incoming) == incoming,
{
    let once = merged_definition(known, incoming);
    assert(merged_definition(once, incoming).fields =~= once.fields);
    assert(merged_definition(incoming, incoming).fields =~= incoming.fields);
}

/// Merging the same versions a second time changes nothing.
pub proof fn lemma_versions_twice(
    known: Map<u64, DefinitionView>,
    incoming: Map<u64, DefinitionView>,
)
    ensures
        merged_versions(merged_versions(known, incoming), incoming) == merged_versions(
            known,
            incoming,
        ),
        merged_versions(incoming, incoming) == incoming,
{
    let combine = combine_definitions();
    assert forall|x: DefinitionView, y: DefinitionView| #[trigger]
        combine(combine(x, y), y) == combine(x, y) by {
        lemma_definition_twice(x, y);
    }
    assert forall|y: DefinitionView| #[trigger] combine(y, y) == y by {
        lemma_definition_twice(y, y);
    }
    lemma_merge_twice(known, incoming, combine);
    assert(merged_versions(incoming, incoming) =~= incoming);
}

/// Merging the same events a second time changes nothing.
pub proof fn lemma_events_twice(
    known: Map<u64, Map<u64, DefinitionView>>,
    incoming: Map<u64, Map<u64, DefinitionView>>,
)
    ensures
        merged_events(merged_events(known, incoming), incoming) == merged_events(known, incoming),
        merged_events(incoming, incoming) == incoming,
{
    let combine = combine_versions();
    assert forall|x: Map<u64, DefinitionView>, y: Map<u64, DefinitionView>| #[trigger]
        combine(combine(x, y), y) == combine(x, y) by {
        lemma_versions_twice(x, y);
    }
    assert forall|y: Map<u64, DefinitionView>| #[trigger] combine(y, y) == y by {
        lemma_versions_twice(y, y);
    }
    lemma_merge_twice(known, incoming, combine);
    assert(merged_events(incoming, incoming) =~= incoming);
}

/// Merging the same provider record a second time changes nothing.
pub proof fn lemma_provider_twice(known: ProviderView, incoming: ProviderView)
    ensures
        merged_provider(merged_provider(known, incoming), incoming) == merged_provider(
            known,
            incoming,
        ),
        merged_provider(incoming, incoming) == incoming,
{
    lemma_events_twice(known.events, incoming.events);
    lemma_events_twice(incoming.events, incoming.events);
}

/// Merging is idempotent: a catalog merged twice into another gives what
/// merging it once gives.
pub proof fn lemma_merge_idempotent(
    known: Map<Seq<char>, ProviderView>,
    incoming: Map<Seq<char>, ProviderView>,
)
    ensures
        merged_catalog(merged_catalog(known, incoming), incoming) == merged_catalog(
            known,
            incoming,
        ),
{
    let combine = combine_providers();
    assert forall|x: ProviderView, y: ProviderView| #[trigger]
        combine(combine(x, y), y) == combine(x, y) by {
        lemma_provider_twice(x, y);
    }
    assert forall|y: ProviderView| #[trigger] combine(y, y) == y by {
        lemma_provider_twice(y, y);
    }
    lemma_merge_twice(known, incoming, combine);
}

/// Whether a catalog has a definition for an event in a version.
pub open spec fn has_definition(
    catalog: Map<Seq<char>, ProviderView>,
    provider: Seq<char>,
    event_id: u64,
    version: u64,
) -> bool {
    catalog.dom().contains(provider) && catalog[provider].events.dom().contains(event_id)
        && catalog[provider].events[event_id].dom().contains(version)
}

/// Merging loses no provider, and changes of a known provider only the
/// identifier, and that only where the other catalog has one for it.
pub proof fn lemma_merge_keeps_providers(
    known: Map<Seq<char>, ProviderView>,
    incoming: Map<Seq<char>, ProviderView>,
    provider: Seq<char>,
)
    requires
        known.dom().contains(provider),
    ensures
        merged_catalog(known, incoming).dom().contains(provider),
        ({
            let before = known[provider];
            let after = merged_catalog(known, incoming)[provider];
            &&& after.resource_file_path == before.resource_file_path
            &&& after.parameter_file_path == before.parameter_file_path
            &&& after.message_file_path == before.message_file_path
            &&& after.message == before.message
            &&& after.guid == if incoming.dom().contains(provider) && incoming[provider].guid
                is Some {
                incoming[provider].guid
            } else {
                before.guid
            }
        }),
{
}

/// Merging loses nothing that was known of an event. The definition is
/// still there, with its codes, names and number of fields. Its message
/// has changed only where the other catalog has a message for the same
/// event and version, and a field only where the other catalog has a
/// field at the same position of the same definition.
pub proof fn lemma_merge_keeps_definitions(
    known: Map<Seq<char>, ProviderView>,
    incoming: Map<Seq<char>, ProviderView>,
    provider: Seq<char>,
    event_id: u64,
    version: u64,
)
    requires
        has_definition(known, provider, event_id, version),
    ensures
        has_definition(merged_catalog(known, incoming), provider, event_id, version),
        ({
            let before = known[provider].events[event_id][version];
            let after = merged_catalog(known, incoming)[provider].events[event_id][version];
            let over = has_definition(incoming, provider, event_id, version);
            let other = incoming[provider].events[event_id][version];
            &&& after.channel == before.channel
            &&& after.level == before.level
            &&& after.level_name == before.level_name
            &&& after.opcode == before.opcode
            &&& after.opcode_name == before.opcode_name
            &&& after.task == before.task
            &&& after.task_name == before.task_name
            &&& after.keywords == before.keywords
            &&& after.keyword_names == before.keyword_names
            &&& after.fields.len() == before.fields.len()
            &&& after.message == if over && other.message is Some {
                other.message
            } else {
                before.message
            }
            &&& forall|i: int|
                0 <= i < before.fields.len() ==> #[trigger] after.fields[i] == if over && i
                    < other.fields.len() {
                    other.fields[i]
                } else {
                    before.fields[i]
                }
        }),
{
}

/// What was read of one provider of a live system. A property that
/// could not be read is `None`.
#[derive(Debug, PartialEq, Eq)]
pub struct ProviderRecord {
    pub name: String,
    pub guid: Option<EvtVariant>,
    pub resource_file_path: Option<EvtVariant>,
    pub parameter_file_path: Option<EvtVariant>,
    pub message_file_path: Option<EvtVariant>,
    /// The identifier of the provider's message.
    pub message_id: Option<EvtVariant>,
    /// The provider's message as the platform formatted it: `None`
    /// where there is none or formatting failed.
    pub message: Option<String>,
    pub tables: NameTables,
    pub events: Vec<DescribedEvent>,
}

/// A property of a provider as a text, if it was read and is one.
pub open spec fn text_property(value: Option<EvtVariant>) -> Option<Seq<char>> {
    match value {
        Some(EvtVariant::String(s)) => Some(s@),
        _ => None,
    }
}

/// The identifier of a provider's message, if the property was read as
/// an unsigned number of at most 32 bits other than the one that stands
/// for no message.
pub open spec fn message_id_of(value: Option<EvtVariant>) -> Option<u32> {
    match value {
        Some(EvtVariant::UInt(id)) => if id < NO_MESSAGE {
            Some(id as u32)
        } else {
            None
        },
        _ => None,
    }
}

/// What the catalog holds of a provider that was read from a live
/// system. A property that is no text counts as absent, and the message
/// counts only with a message identifier.
pub open spec fn provider_of(record: ProviderRecord) -> ProviderView {
    ProviderView {
        guid: text_property(record.guid),
        resource_file_path: text_property(record.resource_file_path),
        parameter_file_path: text_property(record.parameter_file_path),
        message_file_path: text_property(record.message_file_path),
        message: if message_id_of(record.message_id) is Some {
            opt_text(record.message)
        } else {
            None
        },
        events: provider_events(record.tables, record.events@, record.events@.len() as int),
    }
}

/// The catalog of the first `n` providers read: each under its name, a
/// later one in place of an earlier one of the same name.
pub open spec fn imported(records: Seq<ProviderRecord>, n: int) -> Map<Seq<char>, ProviderView>
    decreases n,
{
    if n <= 0 {
        Map::empty()
    } else {
        imported(records, n - 1).insert(records[n - 1].name@, provider_of(records[n - 1]))
    }
}

/// Reads a property of a provider as a text.
pub fn provider_text_property(value: &Option<EvtVariant>) -> (r: Option<String>)
    ensures
        opt_text(r) == text_property(*value),
{
    match value {
        Some(EvtVariant::String(s)) => Some(s.clone()),
        _ => None,
    }
}

/// The identifier of the message that is to be formatted for a provider,
/// if it has one.
pub fn provider_message_id(value: &Option<EvtVariant>) -> (r: Option<u32>)
    ensures
        r == message_id_of(*value),
{
    match value {
        Some(EvtVariant::UInt(id)) => if *id < NO_MESSAGE as u64 {
            Some(*id as u32)
        } else {
            None
        },
        _ => None,
    }
}

/// Builds the catalog entry of a provider from what was read of it.
pub fn provider_metadata(record: &ProviderRecord) -> (r: ProviderMetadata)
    ensures
        r@ == provider_of(*record),
{
    let message = match provider_message_id(&record.message_id) {
        Some(_) => clone_opt_text(&record.message),
        None => None,
    };
    ProviderMetadata {
        guid: provider_text_property(&record.guid),
        resource_file_path: provider_text_property(&record.resource_file_path),
        parameter_file_path: provider_text_property(&record.parameter_file_path),
        message_file_path: provider_text_property(&record.message_file_path),
        message,
        events: get_evt_provider_events(&record.tables, &record.events),
    }
}

/// Builds the catalog of a live system from what was read of its
/// providers.
pub fn import_metadata_from_system(providers: &Vec<ProviderRecord>) -> (r: Metadata)
    ensures
        r@ == imported(providers@, providers@.len() as int),
{
    let mut metadata = Metadata::new();
    let mut i: usize = 0;
    while i < providers.len()
        invariant
            i <= providers.len(),
            metadata@ == imported(providers@, i as int),
        decreases providers.len() - i,
    {
        let record = &providers[i];
        metadata.insert(record.name.clone(), provider_metadata(record));
        i += 1;
    }
    metadata
}

} // verus!
