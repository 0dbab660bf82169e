//! What the engine is configured with, and what follows from it: which
//! providers are built and how each one's status reads.

use vstd::prelude::*;
use vstd::string::StringExecFns;
use std::path::PathBuf;
use crate::apis::unpaywall::UnpaywallClient;
use crate::apis::texts;
use crate::text::{copy_text, lowercase, lowercase_of, push_char, trim, trimmed};

verus! {

/// `std::path::PathBuf`: a path, carried through without a look inside.
#[verifier::external_type_specification]
#[verifier::external_body]
pub struct ExPathBuf(PathBuf);

/// `PathBuf::clone`: the copy is the same path.
pub assume_specification[ <PathBuf as Clone>::clone ](path: &PathBuf) -> (copy: PathBuf)
    ensures
        copy == *path,
;

/// The engine's settings.
#[derive(Debug, Clone)]
pub struct Config {
    pub data_dir: PathBuf,
    pub semantic_scholar_api_key: Option<String>,
    pub ads_api_key: Option<String>,
    pub openalex_email: Option<String>,
    pub unpaywall_email: Option<String>,
    /// The providers to use, by lowercase name; all of them when empty.
    pub enabled_source_names: Vec<String>,
}

/// One provider's line in the status report.
#[derive(Debug, Clone)]
pub struct SourceStatus {
    pub name: String,
    pub enabled: bool,
    pub note: String,
}

/// The content of a [`SourceStatus`].
pub struct StatusView {
    pub name: Seq<char>,
    pub enabled: bool,
    pub note: Seq<char>,
}

impl View for SourceStatus {
    type V = StatusView;

    open spec fn view(&self) -> StatusView {
        StatusView { name: self.name@, enabled: self.enabled, note: self.note@ }
    }
}

/// The providers the engine knows.
#[derive(Debug, Clone, Copy, PartialEq, Eq, Structural)]
pub enum SourceKind {
    Arxiv,
    Inspire,
    CrossRef,
    Doaj,
    EuropePmc,
    Vixra,
    SemanticScholar,
    OpenAlex,
    Ads,
}

impl SourceKind {
    /// The name by which the provider is filtered and reported.
    pub open spec fn name_text(self) -> Seq<char> {
        match self {
            SourceKind::Arxiv => "arxiv"@,
            SourceKind::Inspire => "inspire"@,
            SourceKind::CrossRef => "crossref"@,
            SourceKind::Doaj => "doaj"@,
            SourceKind::EuropePmc => "europepmc"@,
            SourceKind::Vixra => "vixra"@,
            SourceKind::SemanticScholar => "semantic_scholar"@,
            SourceKind::OpenAlex => "openalex"@,
            SourceKind::Ads => "ads"@,
        }
    }

    /// The name by which the provider is filtered and reported.
    pub fn name(&self) -> (name: &'static str)
        ensures
            name@ == self.name_text(),
    {
        match self {
            SourceKind::Arxiv => "arxiv",
            SourceKind::Inspire => "inspire",
            SourceKind::CrossRef => "crossref",
            SourceKind::Doaj => "doaj",
            SourceKind::EuropePmc => "europepmc",
            SourceKind::Vixra => "vixra",
            SourceKind::SemanticScholar => "semantic_scholar",
            SourceKind::OpenAlex => "openalex",
            SourceKind::Ads => "ads",
        }
    }
}

/// The providers in the order in which they are built.
pub open spec fn build_order() -> Seq<SourceKind> {
    seq![
        SourceKind::Arxiv,
        SourceKind::Inspire,
        SourceKind::CrossRef,
        SourceKind::Doaj,
        SourceKind::EuropePmc,
        SourceKind::Vixra,
        SourceKind::SemanticScholar,
        SourceKind::OpenAlex,
        SourceKind::Ads,
    ]
}

/// A provider to build, with the key or address it is built with.
#[derive(Debug, Clone)]
pub struct SourceSetup {
    pub kind: SourceKind,
    pub credential: Option<String>,
}

/// Whether one of `names` is exactly `name`.
pub open spec fn names_hold(names: Seq<String>, name: Seq<char>) -> bool {
    exists|j: int| 0 <= j < names.len() && (#[trigger] names[j])@ == name
}

/// Decides [`names_hold`].
fn holds_name(names: &Vec<String>, name: &String) -> (held: bool)
    ensures
        held == names_hold(names@, name@),
{
    let mut j: usize = 0;
    while j < names.len()
        invariant
            0 <= j <= names@.len(),
            forall|k: int| 0 <= k < j ==> (#[trigger] names@[k])@ != name@,
        decreases names@.len() - j,
    {
        if names[j] == *name {
            return true;
        }
        j += 1;
    }
    false
}

/// The providers in build order.
fn all_sources() -> (kinds: Vec<SourceKind>)
    ensures
        kinds@ == build_order(),
{
    let mut kinds: Vec<SourceKind> = Vec::new();
    kinds.push(SourceKind::Arxiv);
    kinds.push(SourceKind::Inspire);
    kinds.push(SourceKind::CrossRef);
    kinds.push(SourceKind::Doaj);
    kinds.push(SourceKind::EuropePmc);
    kinds.push(SourceKind::Vixra);
    kinds.push(SourceKind::SemanticScholar);
    kinds.push(SourceKind::OpenAlex);
    kinds.push(SourceKind::Ads);
    assert(kinds@ =~= build_order());
    kinds
}

/// The pieces of `s` between its commas: one more than it has commas.
pub open spec fn comma_separated(s: Seq<char>) -> Seq<Seq<char>>
    decreases s.len(),
{
    if s.len() == 0 {
        seq![Seq::empty()]
    } else {
        let head = comma_separated(s.drop_last());
        if s.last() == ',' {
            head.push(Seq::empty())
        } else {
            head.update(head.len() - 1, head.last().push(s.last()))
        }
    }
}

/// The provider names that a setting lists: its pieces between commas,
/// each without the whitespace around it and in lowercase.
pub open spec fn listed_names(raw: Seq<char>) -> Seq<Seq<char>> {
    comma_separated(raw).map_values(|piece: Seq<char>| lowercase_of(trimmed(piece)))
}

/// Reads the provider names out of a comma-separated setting.
pub fn parse_source_names(raw: &str) -> (names: Vec<String>)
    ensures
        texts(names@) == listed_names(raw@),
{
    let ghost text = raw@;
    let mut names: Vec<String> = Vec::new();
    let mut piece = String::new();
    proof {
        assert(text.take(0) =~= Seq::<char>::empty());
        assert(texts(names@).push(lowercase_of(trimmed(piece@))) =~= listed_names(text.take(0)));
    }
    for c in it: raw.chars()
        invariant
            it.seq() == text,
            comma_separated(text.take(it.index() as int)).len() == names@.len() + 1,
            comma_separated(text.take(it.index() as int)).last() == piece@,
            texts(names@) =~= listed_names(text.take(it.index() as int)).drop_last(),
    {
        let ghost i = it.index() as int;
        let ghost before = comma_separated(text.take(i));
        proof {
            assert(text.take(i + 1).drop_last() =~= text.take(i));
            assert(text.take(i + 1).last() == c);
        }
        if c == ',' {
            let ghost listed = texts(names@);
            let name = lowercase(trim(piece.as_str()).as_str());
            names.push(name);
            piece = String::new();
            proof {
                let after = comma_separated(text.take(i + 1));
                assert(after == before.push(Seq::empty()));
                assert(listed_names(text.take(i + 1)).drop_last() =~= listed_names(text.take(i)));
                assert(texts(names@) =~= listed.push(name@));
                assert(listed_names(text.take(i)) =~= listed_names(text.take(i)).drop_last().push(
                    lowercase_of(trimmed(before.last())),
                ));
            }
        } else {
            push_char(&mut piece, c);
            proof {
                let after = comma_separated(text.take(i + 1));
                assert(after == before.update(before.len() - 1, before.last().push(c)));
                assert(listed_names(text.take(i + 1)).drop_last() =~= listed_names(
                    text.take(i),
                ).drop_last());
            }
        }
    }
    proof {
        assert(text.take(text.len() as int) =~= text);
    }
    let ghost listed = texts(names@);
    let name = lowercase(trim(piece.as_str()).as_str());
    names.push(name);
    proof {
        assert(texts(names@) =~= listed.push(name@));
        assert(listed_names(text) =~= listed_names(text).drop_last().push(
            lowercase_of(trimmed(comma_separated(text).last())),
        ));
    }
    names
}

/// The note of a provider that the filter leaves out.
pub open spec fn filtered_note() -> Seq<char> {
    "Disabled by PAPER_SEARCH_SOURCES filter"@
}

impl Config {
    /// Whether the filter asks for the provider: it is empty, or it holds
    /// the provider's name in lowercase.
    pub open spec fn wants(&self, kind: SourceKind) -> bool {
        self.enabled_source_names@.len() == 0 || names_hold(
            self.enabled_source_names@,
            lowercase_of(kind.name_text()),
        )
    }

    /// Whether the provider is built: the filter asks for it, and it has
    /// the key it cannot do without.
    pub open spec fn builds(&self, kind: SourceKind) -> bool {
        self.wants(kind) && (kind == SourceKind::Ads ==> self.ads_api_key is Some)
    }

    /// The key or address that the provider is built with, if any.
    pub open spec fn credential_of(&self, kind: SourceKind) -> Option<String> {
        match kind {
            SourceKind::SemanticScholar => self.semantic_scholar_api_key,
            SourceKind::OpenAlex => self.openalex_email,
            SourceKind::Ads => self.ads_api_key,
            _ => None,
        }
    }

    /// Decides [`Config::wants`].
    fn should_enable(&self, kind: SourceKind) -> (wanted: bool)
        ensures
            wanted == self.wants(kind),
    {
        if self.enabled_source_names.is_empty() {
            true
        } else {
            let name = lowercase(kind.name());
            holds_name(&self.enabled_source_names, &name)
        }
    }

    /// The providers to build, in build order: each one that the filter
    /// asks for, the one that needs a key only if the key is there.
    pub fn build_sources(&self) -> (sources: Vec<SourceSetup>)
        ensures
            sources@.map_values(|s: SourceSetup| s.kind) == build_order().filter(
                |k: SourceKind| self.builds(k),
            ),
            forall|i: int|
                0 <= i < sources@.len() ==> (#[trigger] sources@[i]).credential
                    == self.credential_of(sources@[i].kind),
    {
        let kinds = all_sources();
        let mut sources: Vec<SourceSetup> = Vec::new();
        let mut i: usize = 0;
        proof {
            assert(build_order().take(0) =~= Seq::<SourceKind>::empty());
        }
        while i < kinds.len()
            invariant
                kinds@ == build_order(),
                0 <= i <= kinds@.len(),
                sources@.map_values(|s: SourceSetup| s.kind) =~= build_order().take(i as int).filter(
                    |k: SourceKind| self.builds(k),
                ),
                forall|j: int|
                    0 <= j < sources@.len() ==> (#[trigger] sources@[j]).credential
                        == self.credential_of(sources@[j].kind),
            decreases kinds@.len() - i,
        {
            let kind = kinds[i];
            proof {
                assert(build_order().take(i + 1) =~= build_order().take(i as int).push(kind));
                build_order().take(i as int).lemma_filter_push(kind, |k: SourceKind| self.builds(k));
            }
            if self.should_enable(kind) {
                let credential = match kind {
                    SourceKind::SemanticScholar => copy_text(&self.semantic_scholar_api_key),
                    SourceKind::OpenAlex => copy_text(&self.openalex_email),
                    SourceKind::Ads => copy_text(&self.ads_api_key),
                    _ => None,
                };
                let built = match kind {
                    SourceKind::Ads => credential.is_some(),
                    _ => true,
                };
                if built {
                    sources.push(SourceSetup { kind, credential });
                }
            }
            i += 1;
        }
        proof {
            assert(build_order().take(build_order().len() as int) =~= build_order());
        }
        sources
    }

    /// The open-access lookup client, if an address for it is configured.
    pub fn build_unpaywall(&self) -> (client: Option<UnpaywallClient>)
        ensures
            match client {
                Some(c) => self.unpaywall_email is Some && c.contact()
                    == self.unpaywall_email->0@,
                None => self.unpaywall_email is None,
            },
    {
        match &self.unpaywall_email {
            Some(email) => Some(UnpaywallClient::new(email.clone())),
            None => None,
        }
    }

    /// The status lines before the filter is applied, in report order.
    pub open spec fn unfiltered_statuses(&self) -> Seq<StatusView> {
        seq![
            StatusView { name: "arxiv"@, enabled: true, note: "No API key required"@ },
            StatusView { name: "inspire"@, enabled: true, note: "No API key required"@ },
            StatusView {
                name: "semantic_scholar"@,
                enabled: true,
                note: if self.semantic_scholar_api_key is Some {
                    "API key set"@
                } else {
                    "No API key (rate limited)"@
                },
            },
            StatusView {
                name: "openalex"@,
                enabled: true,
                note: if self.openalex_email is Some {
                    "Polite pool email set"@
                } else {
                    "No email (limited rate)"@
                },
            },
            StatusView { name: "crossref"@, enabled: true, note: "No API key required"@ },
            StatusView {
                name: "ads"@,
                enabled: self.ads_api_key is Some,
                note: if self.ads_api_key is Some {
                    "API key set"@
                } else {
                    "Disabled: ADS_API_KEY not set"@
                },
            },
            StatusView { name: "europepmc"@, enabled: true, note: "No API key required"@ },
            StatusView { name: "doaj"@, enabled: true, note: "No API key required"@ },
            StatusView { name: "vixra"@, enabled: true, note: "HTML scraping"@ },
        ]
    }

    /// A status line once the filter is applied: a provider that a
    /// non-empty filter does not name is disabled, and the note says so.
    pub open spec fn filtered(&self, status: StatusView) -> StatusView {
        if self.enabled_source_names@.len() > 0 && !names_hold(
            self.enabled_source_names@,
            status.name,
        ) {
            StatusView { name: status.name, enabled: false, note: filtered_note() }
        } else {
            status
        }
    }

    /// One status line, filter applied.
    fn status_line(&self, name: &str, enabled: bool, note: &str) -> (status: SourceStatus)
        ensures
            status@ == self.filtered(StatusView { name: name@, enabled, note: note@ }),
    {
        let name = String::from_str(name);
        if !self.enabled_source_names.is_empty() && !holds_name(
            &self.enabled_source_names,
            &name,
        ) {
            SourceStatus {
                name,
                enabled: false,
                note: String::from_str("Disabled by PAPER_SEARCH_SOURCES filter"),
            }
        } else {
            SourceStatus { name, enabled, note: String::from_str(note) }
        }
    }

    /// The status of every provider the engine knows, in report order.
    pub fn source_status(&self) -> (statuses: Vec<SourceStatus>)
        ensures
            statuses@.len() == self.unfiltered_statuses().len(),
            forall|i: int|
                0 <= i < statuses@.len() ==> (#[trigger] statuses@[i])@ == self.filtered(
                    self.unfiltered_statuses()[i],
                ),
    {
        let has_s2_key = self.semantic_scholar_api_key.is_some();
        let has_email = self.openalex_email.is_some();
        let has_ads_key = self.ads_api_key.is_some();
        let mut statuses: Vec<SourceStatus> = Vec::new();
        statuses.push(self.status_line("arxiv", true, "No API key required"));
        statuses.push(self.status_line("inspire", true, "No API key required"));
        statuses.push(
            self.status_line(
                "semantic_scholar",
                true,
                if has_s2_key {
                    "API key set"
                } else {
                    "No API key (rate limited)"
                },
            ),
        );
        statuses.push(
            self.status_line(
                "openalex",
                true,
                if has_email {
                    "Polite pool email set"
                } else {
                    "No email (limited rate)"
                },
            ),
        );
        statuses.push(self.status_line("crossref", true, "No API key required"));
        statuses.push(
            self.status_line(
                "ads",
                has_ads_key,
                if has_ads_key {
                    "API key set"
                } else {
                    "Disabled: ADS_API_KEY not set"
                },
            ),
        );
        statuses.push(self.status_line("europepmc", true, "No API key required"));
        statuses.push(self.status_line("doaj", true, "No API key required"));
        statuses.push(self.status_line("vixra", true, "HTML scraping"));
        statuses
    }
}

} // verus!
