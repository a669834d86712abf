use vstd::prelude::*;

verus! {

/// How serious a finding is.
#[derive(Clone, Copy, Debug, PartialEq, Eq, Structural)]
pub enum VulnerabilityLevel {
    Low,
    Medium,
    High,
    Critical,
}

/// One finding of an inspection: a stable code, a description for operators, and its severity.
#[derive(Debug, PartialEq, Eq)]
pub struct Vulnerability {
    pub code: String,
    pub description: String,
    pub level: VulnerabilityLevel,
}

pub struct VulnerabilityView {
    pub code: Seq<char>,
    pub description: Seq<char>,
    pub level: VulnerabilityLevel,
}

impl View for Vulnerability {
    type V = VulnerabilityView;

    open spec fn view(&self) -> VulnerabilityView {
        VulnerabilityView { code: self.code@, description: self.description@, level: self.level }
    }
}

/// The finding with these texts and level.
pub open spec fn finding(code: Seq<char>, description: Seq<char>, level: VulnerabilityLevel) -> VulnerabilityView {
    VulnerabilityView { code, description, level }
}

/// The views of a list of findings.
pub open spec fn findings_view(v: Seq<Vulnerability>) -> Seq<VulnerabilityView> {
    v.map_values(|f: Vulnerability| f@)
}

impl Clone for Vulnerability {
    fn clone(&self) -> (copy: Self)
        ensures
            copy == *self,
    {
        Vulnerability {
            code: self.code.clone(),
            description: self.description.clone(),
            level: self.level,
        }
    }
}

impl Vulnerability {
    pub fn new(code: &str, description: &str, level: VulnerabilityLevel) -> (v: Self)
        ensures
            v@ == finding(code@, description@, level),
    {
        Vulnerability { code: code.to_owned(), description: description.to_owned(), level }
    }
}

} // verus!
