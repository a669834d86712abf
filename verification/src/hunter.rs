use vstd::prelude::*;

use crate::text::{
    ascii_lowercase, chars_of, lowercase_chars, nonblank_trimmed, nonblank_trimmed_strings,
    opt_text, split_chars, texts, split_on, string_of, text_equals, trim, trim_chars,
};

verus! {

/// The kinds of Hunter clone agents.
#[derive(Clone, Copy, Debug, PartialEq, Eq, Structural)]
pub enum AgentKind {
    Hunter,
    Strategist,
    Researcher,
    Builder,
    Sentinel,
}

/// What a Hunter clone agent can do.
#[derive(Clone, Copy, Debug, PartialEq, Eq, Structural)]
pub enum AgentCapability {
    SessionIntake,
    MessageRelay,
    TaskExecution,
    KnowledgeRetrieval,
    Moderation,
}

/// A Hunter clone agent, as the definitions list declares it.
#[derive(Clone, Debug, PartialEq, Eq)]
pub struct HunterClone {
    pub name: String,
    pub kind: AgentKind,
    pub capabilities: Vec<AgentCapability>,
    pub assigned_session_id: Option<String>,
}

pub struct HunterCloneView {
    pub name: Seq<char>,
    pub kind: AgentKind,
    pub capabilities: Seq<AgentCapability>,
    pub assigned_session_id: Option<Seq<char>>,
}

impl View for HunterClone {
    type V = HunterCloneView;

    open spec fn view(&self) -> HunterCloneView {
        HunterCloneView {
            name: self.name@,
            kind: self.kind,
            capabilities: self.capabilities@,
            assigned_session_id: opt_text(self.assigned_session_id),
        }
    }
}


/// The agent kind a definition names: matched after trimming, without regard
/// to ASCII case; anything unknown is a Hunter.
pub open spec fn kind_named(value: Seq<char>) -> AgentKind {
    let k = ascii_lowercase(trim(value));
    if k == "strategist"@ {
        AgentKind::Strategist
    } else if k == "researcher"@ {
        AgentKind::Researcher
    } else if k == "builder"@ {
        AgentKind::Builder
    } else if k == "sentinel"@ {
        AgentKind::Sentinel
    } else {
        AgentKind::Hunter
    }
}

/// The capability a definition names, matched after trimming and without
/// regard to ASCII case; nothing for an unknown name.
pub open spec fn capability_named(value: Seq<char>) -> Option<AgentCapability> {
    let k = ascii_lowercase(trim(value));
    if k == "session_intake"@ {
        Some(AgentCapability::SessionIntake)
    } else if k == "message_relay"@ {
        Some(AgentCapability::MessageRelay)
    } else if k == "task_execution"@ {
        Some(AgentCapability::TaskExecution)
    } else if k == "knowledge_retrieval"@ {
        Some(AgentCapability::KnowledgeRetrieval)
    } else if k == "moderation"@ {
        Some(AgentCapability::Moderation)
    } else {
        None
    }
}

fn normalized(value: &Vec<char>) -> (k: Vec<char>)
    ensures
        k@ == ascii_lowercase(trim(value@)),
{
    let t = trim_chars(value);
    lowercase_chars(&t)
}

fn kind_of_chars(value: &Vec<char>) -> (kind: AgentKind)
    ensures
        kind == kind_named(value@),
{
    let k = normalized(value);
    if text_equals(&k, "strategist") {
        AgentKind::Strategist
    } else if text_equals(&k, "researcher") {
        AgentKind::Researcher
    } else if text_equals(&k, "builder") {
        AgentKind::Builder
    } else if text_equals(&k, "sentinel") {
        AgentKind::Sentinel
    } else {
        AgentKind::Hunter
    }
}

fn capability_of_chars(value: &Vec<char>) -> (capability: Option<AgentCapability>)
    ensures
        capability == capability_named(value@),
{
    let k = normalized(value);
    if text_equals(&k, "session_intake") {
        Some(AgentCapability::SessionIntake)
    } else if text_equals(&k, "message_relay") {
        Some(AgentCapability::MessageRelay)
    } else if text_equals(&k, "task_execution") {
        Some(AgentCapability::TaskExecution)
    } else if text_equals(&k, "knowledge_retrieval") {
        Some(AgentCapability::KnowledgeRetrieval)
    } else if text_equals(&k, "moderation") {
        Some(AgentCapability::Moderation)
    } else {
        None
    }
}

pub fn parse_kind(value: &str) -> (kind: AgentKind)
    ensures
        kind == kind_named(value@),
{
    let chars = chars_of(value);
    kind_of_chars(&chars)
}

pub fn parse_capability(value: &str) -> (capability: Option<AgentCapability>)
    ensures
        capability == capability_named(value@),
{
    let chars = chars_of(value);
    capability_of_chars(&chars)
}

/// The capabilities named by `pieces`, the unknown names left out.
pub open spec fn capabilities_named(pieces: Seq<Seq<char>>) -> Seq<AgentCapability>
    decreases pieces.len(),
{
    if pieces.len() == 0 {
        Seq::empty()
    } else {
        let init = capabilities_named(pieces.drop_last());
        match capability_named(pieces.last()) {
            Some(c) => init.push(c),
            None => init,
        }
    }
}

/// One clone definition `name:kind:capability|capability`: the trimmed name
/// must not be empty; a missing kind is Hunter, a missing list is empty, and
/// anything after a third `:` is not read.
pub open spec fn clone_defined(definition: Seq<char>) -> Option<HunterCloneView> {
    let parts = split_on(definition, ':');
    let name = trim(parts[0]);
    if name.len() == 0 {
        None
    } else {
        Some(
            HunterCloneView {
                name,
                kind: if parts.len() > 1 {
                    kind_named(parts[1])
                } else {
                    AgentKind::Hunter
                },
                capabilities: if parts.len() > 2 {
                    capabilities_named(split_on(parts[2], '|'))
                } else {
                    Seq::empty()
                },
                assigned_session_id: None,
            },
        )
    }
}

/// The clones that a list of definitions defines, in order.
pub open spec fn clones_defined(definitions: Seq<Seq<char>>) -> Seq<HunterCloneView>
    decreases definitions.len(),
{
    if definitions.len() == 0 {
        Seq::empty()
    } else {
        let init = clones_defined(definitions.drop_last());
        match clone_defined(definitions.last()) {
            Some(c) => init.push(c),
            None => init,
        }
    }
}

/// The clones that a `;`-separated definitions list defines; blank definitions are skipped.
pub open spec fn agent_definitions(definitions: Seq<char>) -> Seq<HunterCloneView> {
    clones_defined(nonblank_trimmed(split_on(definitions, ';')))
}

pub open spec fn clones_view(v: Seq<HunterClone>) -> Seq<HunterCloneView> {
    v.map_values(|c: HunterClone| c@)
}

fn capabilities_of(pieces: &Vec<Vec<char>>) -> (caps: Vec<AgentCapability>)
    ensures
        caps@ == capabilities_named(pieces@.map_values(|p: Vec<char>| p@)),
{
    let ghost views = pieces@.map_values(|p: Vec<char>| p@);
    let mut caps: Vec<AgentCapability> = Vec::new();
    let mut i: usize = 0;
    while i < pieces.len()
        invariant
            i <= pieces.len(),
            views == pieces@.map_values(|p: Vec<char>| p@),
            caps@ == capabilities_named(views.take(i as int)),
        decreases pieces.len() - i,
    {
        assert(views.take(i + 1).drop_last() =~= views.take(i as int));
        assert(views.take(i + 1).last() == pieces@[i as int]@);
        match capability_of_chars(&pieces[i]) {
            Some(c) => caps.push(c),
            None => {},
        }
        i = i + 1;
    }
    assert(views.take(pieces.len() as int) =~= views);
    caps
}

fn clone_of_definition(definition: &Vec<char>) -> (clone: Option<HunterClone>)
    ensures
        match clone {
            Some(c) => clone_defined(definition@) == Some(c@),
            None => clone_defined(definition@) is None,
        },
{
    let parts = split_chars(definition, ':');
    let ghost views = parts@.map_values(|p: Vec<char>| p@);
    proof {
        crate::text::lemma_split_on_nonempty(definition@, ':');
    }
    assert(views.len() >= 1);
    assert(views[0] == parts@[0]@);
    let name = trim_chars(&parts[0]);
    if name.len() == 0 {
        return None;
    }
    let kind = if parts.len() > 1 {
        assert(views[1] == parts@[1]@);
        kind_of_chars(&parts[1])
    } else {
        AgentKind::Hunter
    };
    let capabilities = if parts.len() > 2 {
        assert(views[2] == parts@[2]@);
        let pieces = split_chars(&parts[2], '|');
        capabilities_of(&pieces)
    } else {
        Vec::new()
    };
    let clone = HunterClone {
        name: string_of(&name),
        kind,
        capabilities,
        assigned_session_id: None,
    };
    assert(clone@.capabilities =~= clone_defined(definition@).unwrap().capabilities);
    Some(clone)
}

/// The clones that a `;`-separated list of `name:kind:capability|capability`
/// definitions declares, in order.
pub fn parse_agent_definitions(definitions: &str) -> (clones: Vec<HunterClone>)
    ensures
        clones_view(clones@) == agent_definitions(definitions@),
{
    let chars = chars_of(definitions);
    let pieces = split_chars(&chars, ';');
    let items = nonblank_trimmed_strings(&pieces);
    let ghost defs = texts(items@);
    let mut clones: Vec<HunterClone> = Vec::new();
    let mut i: usize = 0;
    while i < items.len()
        invariant
            i <= items.len(),
            defs == texts(items@),
            defs == nonblank_trimmed(split_on(definitions@, ';')),
            clones_view(clones@) == clones_defined(defs.take(i as int)),
        decreases items.len() - i,
    {
        assert(defs.take(i + 1).drop_last() =~= defs.take(i as int));
        assert(defs.take(i + 1).last() == items@[i as int]@);
        let item = chars_of(items[i].as_str());
        match clone_of_definition(&item) {
            Some(c) => {
                let ghost before = clones_view(clones@);
                clones.push(c);
                assert(clones_view(clones@) =~= before.push(clones@.last()@));
            },
            None => {},
        }
        i = i + 1;
    }
    assert(defs.take(items.len() as int) =~= defs);
    clones
}

} // verus!
