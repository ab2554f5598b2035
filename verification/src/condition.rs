//! Conditions as the configuration declares them.

use crate::conditions::{
    Condition, ContainsCondition, ExtensionCondition, GlobCondition, RegexCondition,
    SizeGtCondition, SizeLtCondition,
};
use crate::conditions::glob::glob_valid;
use crate::conditions::regex::regex_valid;
use crate::error::ConfigError;
use vstd::prelude::*;

verus! {

/// One condition of a rule, as declared.
#[derive(Debug, Clone)]
#[allow(inconsistent_fields)]
pub enum ConditionConfig {
    Regex { value: String },
    Glob { value: String },
    Extension { value: String },
    SizeGt { value: i64 },
    SizeLt { value: i64 },
    Contains { value: String },
}

impl ConditionConfig {
    /// The declaration can be built: its pattern, if it has one, compiles.
    pub open spec fn compiles(&self) -> bool {
        match self {
            ConditionConfig::Regex { value } => regex_valid(value@),
            ConditionConfig::Glob { value } => glob_valid(value@),
            _ => true,
        }
    }

    /// `e` is the refusal of the declaration: its pattern, which does not
    /// compile.
    pub open spec fn refused_by(&self, e: ConfigError) -> bool {
        &&& !self.compiles()
        &&& match e {
            ConfigError::InvalidRegex { pattern } => *self matches ConditionConfig::Regex {
                value,
            } && pattern == value,
            ConfigError::InvalidGlob { pattern } => *self matches ConditionConfig::Glob { value }
                && pattern == value,
            _ => false,
        }
    }

    /// `built` is the condition that the declaration stands for.
    pub open spec fn describes(&self, built: Condition) -> bool {
        match (self, built) {
            (ConditionConfig::Regex { value }, Condition::Regex(c)) => c.pattern() == value@,
            (ConditionConfig::Glob { value }, Condition::Glob(c)) => c.pattern() == value@,
            (ConditionConfig::Extension { value }, Condition::Extension(c)) => c.wanted()
                == value@,
            (ConditionConfig::SizeGt { value }, Condition::SizeGt(c)) => c.bound() == value,
            (ConditionConfig::SizeLt { value }, Condition::SizeLt(c)) => c.bound() == value,
            (ConditionConfig::Contains { value }, Condition::Contains(c)) => c.needle()
                == value@,
            _ => false,
        }
    }

    /// A copy of the declaration.
    pub fn duplicate(&self) -> (r: Self)
        ensures
            r == *self,
    {
        match self {
            ConditionConfig::Regex { value } => ConditionConfig::Regex { value: value.clone() },
            ConditionConfig::Glob { value } => ConditionConfig::Glob { value: value.clone() },
            ConditionConfig::Extension { value } => ConditionConfig::Extension {
                value: value.clone(),
            },
            ConditionConfig::SizeGt { value } => ConditionConfig::SizeGt { value: *value },
            ConditionConfig::SizeLt { value } => ConditionConfig::SizeLt { value: *value },
            ConditionConfig::Contains { value } => ConditionConfig::Contains {
                value: value.clone(),
            },
        }
    }

    /// Builds the condition, or says which pattern does not compile.
    pub fn into_condition(self) -> (r: Result<Condition, ConfigError>)
        ensures
            match r {
                Ok(built) => self.compiles() && self.describes(built),
                Err(e) => self.refused_by(e),
            },
    {
        match self {
            ConditionConfig::Regex { value } => match RegexCondition::new(value) {
                Ok(c) => Ok(Condition::Regex(c)),
                Err(e) => Err(e),
            },
            ConditionConfig::Glob { value } => match GlobCondition::new(value) {
                Ok(c) => Ok(Condition::Glob(c)),
                Err(e) => Err(e),
            },
            ConditionConfig::Extension { value } => Ok(
                Condition::Extension(ExtensionCondition::new(value)),
            ),
            ConditionConfig::SizeGt { value } => Ok(Condition::SizeGt(SizeGtCondition::new(value))),
            ConditionConfig::SizeLt { value } => Ok(Condition::SizeLt(SizeLtCondition::new(value))),
            ConditionConfig::Contains { value } => Ok(
                Condition::Contains(ContainsCondition::new(value)),
            ),
        }
    }
}

} // verus!
