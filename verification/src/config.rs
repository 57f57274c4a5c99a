//! What a run is asked to do: where to look, which rules to apply and which
//! functions and files are exempt.

use crate::syntax::RiskKind;
use crate::violation::RuleKind;
use vstd::prelude::*;
use vstd::string::StringExecFns;

verus! {

/// The set of enabled rules, one switch for each rule.
#[derive(Clone, Copy, Debug, PartialEq, Eq, Structural)]
pub struct RuleSelection {
    /// Functions must carry the marker attribute.
    pub instrument: bool,
    /// Unsafe blocks must have a safety comment before them.
    pub safety: bool,
    /// Endless loops must have a justification comment before them.
    pub loops: bool,
}

impl RuleSelection {
    /// Whether the rule is enabled.
    pub open spec fn enables(self, kind: RuleKind) -> bool {
        match kind {
            RuleKind::MissingMarkerAttribute => self.instrument,
            RuleKind::MissingPrecedingComment(RiskKind::UnsafeBlock) => self.safety,
            RuleKind::MissingPrecedingComment(RiskKind::EndlessLoop) => self.loops,
        }
    }

    /// The enabled rules in the order in which they are applied.
    pub open spec fn kinds(self) -> Seq<RuleKind> {
        (if self.instrument {
            seq![RuleKind::MissingMarkerAttribute]
        } else {
            Seq::empty()
        }) + (if self.safety {
            seq![RuleKind::MissingPrecedingComment(RiskKind::UnsafeBlock)]
        } else {
            Seq::empty()
        }) + (if self.loops {
            seq![RuleKind::MissingPrecedingComment(RiskKind::EndlessLoop)]
        } else {
            Seq::empty()
        })
    }

    /// Whether no rule is enabled.
    pub fn is_empty(&self) -> (r: bool)
        ensures
            r == (self.kinds().len() == 0),
            r == !(self.instrument || self.safety || self.loops),
    {
        !(self.instrument || self.safety || self.loops)
    }

    /// Whether the rule is enabled.
    pub fn is_enabled(&self, kind: RuleKind) -> (r: bool)
        ensures
            r == self.enables(kind),
            r == self.kinds().contains(kind),
    {
        let r = match kind {
            RuleKind::MissingMarkerAttribute => self.instrument,
            RuleKind::MissingPrecedingComment(RiskKind::UnsafeBlock) => self.safety,
            RuleKind::MissingPrecedingComment(RiskKind::EndlessLoop) => self.loops,
        };
        proof {
            let kinds = self.kinds();
            if r {
                if kind == RuleKind::MissingMarkerAttribute {
                    assert(kinds[0] == kind);
                } else if kind == RuleKind::MissingPrecedingComment(RiskKind::UnsafeBlock) {
                    assert(kinds[if self.instrument { 1int } else { 0int }] == kind);
                } else {
                    assert(kinds[kinds.len() - 1] == kind);
                }
            }
        }
        r
    }

    /// The enabled rules in the order in which they are applied.
    pub fn enabled_kinds(&self) -> (r: Vec<RuleKind>)
        ensures
            r@ == self.kinds(),
    {
        let mut kinds: Vec<RuleKind> = Vec::new();
        if self.instrument {
            kinds.push(RuleKind::MissingMarkerAttribute);
        }
        if self.safety {
            kinds.push(RuleKind::MissingPrecedingComment(RiskKind::UnsafeBlock));
        }
        if self.loops {
            kinds.push(RuleKind::MissingPrecedingComment(RiskKind::EndlessLoop));
        }
        kinds
    }
}

/// The settings of a run.
#[derive(Debug, PartialEq, Eq)]
pub struct Configuration {
    /// The directory whose files are scanned.
    pub target_dir: String,
    /// The enabled rules.
    pub rules: RuleSelection,
    /// The attribute that every function must carry.
    pub marker_attribute: String,
    /// Functions that need no marker attribute, by identifier.
    pub exempt_functions: Vec<String>,
    /// Files whose functions need no marker attribute, by base name.
    pub exempt_files: Vec<String>,
}

/// The settings as contracts see them.
pub struct ConfigurationView {
    pub target_dir: Seq<char>,
    pub rules: RuleSelection,
    pub marker_attribute: Seq<char>,
    pub exempt_functions: Seq<Seq<char>>,
    pub exempt_files: Seq<Seq<char>>,
}

impl View for Configuration {
    type V = ConfigurationView;

    open spec fn view(&self) -> ConfigurationView {
        ConfigurationView {
            target_dir: self.target_dir@,
            rules: self.rules,
            marker_attribute: self.marker_attribute@,
            exempt_functions: self.exempt_functions.deep_view(),
            exempt_files: self.exempt_files.deep_view(),
        }
    }
}

/// Why a run cannot start.
#[derive(Debug, PartialEq, Eq)]
pub enum ConfigError {
    /// The target directory, named here, does not exist.
    MissingTargetDirectory(String),
    /// No rule is enabled.
    NoRuleSelected,
}

/// The rules that the switches select: each rule by its own switch, every
/// rule by `all`.
pub open spec fn selected(instrument: bool, safety: bool, loops: bool, all: bool) -> RuleSelection {
    RuleSelection { instrument: instrument || all, safety: safety || all, loops: loops || all }
}

/// The settings that the switches ask for, with the usual marker attribute
/// and exemptions.
pub open spec fn standard(target_dir: Seq<char>, rules: RuleSelection) -> ConfigurationView {
    ConfigurationView {
        target_dir,
        rules,
        marker_attribute: "instrument"@,
        exempt_functions: seq!["main"@],
        exempt_files: seq!["utils.rs"@],
    }
}

/// What is said of a failed start.
pub open spec fn diagnostic(error: ConfigError) -> Seq<char> {
    match error {
        ConfigError::MissingTargetDirectory(path) => "Target directory does not exist: "@ + path@,
        ConfigError::NoRuleSelected =>
            "Please specify at least one check to conduct. Use --help for more information."@,
    }
}

impl Configuration {
    /// The settings of a run, from what was asked on the command line and
    /// from whether the target directory was found.
    ///
    /// A missing target directory is an error, and comes first. With the
    /// directory there, a run with no rule enabled is an error too: a run
    /// never starts with nothing to do.
    pub fn from_switches(
        target_dir: String,
        target_exists: bool,
        instrument: bool,
        safety: bool,
        loops: bool,
        all: bool,
    ) -> (r: Result<Configuration, ConfigError>)
        ensures
            match r {
                Ok(config) => target_exists && (instrument || safety || loops || all) && config@
                    == standard(target_dir@, selected(instrument, safety, loops, all)),
                Err(ConfigError::MissingTargetDirectory(path)) => !target_exists && path@
                    == target_dir@,
                Err(ConfigError::NoRuleSelected) => target_exists && !(instrument || safety
                    || loops || all),
            },
    {
        if !target_exists {
            return Err(ConfigError::MissingTargetDirectory(target_dir));
        }
        let rules = RuleSelection {
            instrument: instrument || all,
            safety: safety || all,
            loops: loops || all,
        };
        if rules.is_empty() {
            return Err(ConfigError::NoRuleSelected);
        }
        let mut exempt_functions: Vec<String> = Vec::new();
        exempt_functions.push("main".to_owned());
        let mut exempt_files: Vec<String> = Vec::new();
        exempt_files.push("utils.rs".to_owned());
        let config = Configuration {
            target_dir,
            rules,
            marker_attribute: "instrument".to_owned(),
            exempt_functions,
            exempt_files,
        };
        assert(config@.exempt_functions =~= seq!["main"@]);
        assert(config@.exempt_files =~= seq!["utils.rs"@]);
        Ok(config)
    }
}

impl ConfigError {
    /// What to tell the user.
    pub fn message(&self) -> (r: String)
        ensures
            r@ == diagnostic(*self),
    {
        match self {
            ConfigError::MissingTargetDirectory(path) => {
                let mut text = "Target directory does not exist: ".to_owned();
                text.append(path.as_str());
                text
            },
            ConfigError::NoRuleSelected =>
                "Please specify at least one check to conduct. Use --help for more information.".to_owned(),
        }
    }

    /// The status that a run ends with when it cannot start.
    pub fn exit_status(&self) -> (status: i32)
        ensures
            status == 1,
    {
        1
    }
}

} // verus!
