//! Constants for common MIME types used within OPDS.
use vstd::prelude::*;

verus! {

/// The MIME type of an OPDS feed.
pub const APPLICATION_OPDS_JSON: &'static str = "application/opds+json";

/// The MIME type of an OPDS publication.
pub const APPLICATION_OPDS_PUBLICATION_JSON: &'static str = "application/opds-publication+json";

} // verus!
