//! What a request must hold before any work begins.

use vstd::prelude::*;

verus! {

/// Why a request is refused.
#[derive(Debug, Clone, Copy, PartialEq, Eq, Structural)]
pub enum ConfigError {
    /// Neither a keyword nor a label was given.
    NoTerms,
    /// The first rank of the range is not below its end.
    EmptyRange,
}

impl ConfigError {
    /// The error in words.
    pub open spec fn text(self) -> Seq<char> {
        match self {
            ConfigError::NoTerms => "At least one keyword or label must be specified"@,
            ConfigError::EmptyRange => "Minimum index must be less than maximum index"@,
        }
    }

    /// The error in words, for the message that ends the run.
    pub fn message(&self) -> (r: &'static str)
        ensures
            r@ == self.text(),
    {
        match self {
            ConfigError::NoTerms => "At least one keyword or label must be specified",
            ConfigError::EmptyRange => "Minimum index must be less than maximum index",
        }
    }
}

/// Checks a request: at least one keyword or label must be given, and the
/// range of ranks, from `min` up to but not including `max`, must not be
/// empty. A request without terms is refused as such whatever its range.
pub fn validate_request(keywords: &[String], labels: &[String], min: usize, max: usize) -> (r:
    Result<(), ConfigError>)
    ensures
        r == if keywords@.len() == 0 && labels@.len() == 0 {
            Err::<(), ConfigError>(ConfigError::NoTerms)
        } else if min >= max {
            Err::<(), ConfigError>(ConfigError::EmptyRange)
        } else {
            Ok::<(), ConfigError>(())
        },
{
    if keywords.len() == 0 && labels.len() == 0 {
        Err(ConfigError::NoTerms)
    } else if min >= max {
        Err(ConfigError::EmptyRange)
    } else {
        Ok(())
    }
}

} // verus!
