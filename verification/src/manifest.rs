//! The summary of a SUIT manifest envelope that the manifest inspector shows.

use vstd::prelude::*;
use crate::text::opt_text;

verus! {

/// The text metadata of the manifest's first component.
pub struct TextComponent {
    pub version: Option<String>,
    pub vendor_name: Option<String>,
    pub model_name: Option<String>,
}

/// What a decoded envelope's manifest says that the summary reads.
pub struct ManifestFields {
    pub sequence_number: u64,
    /// The security version the manifest declares, if it declares one (filled
    /// by the shell from the decoded envelope).
    pub security_version: Option<u64>,
    pub component_count: usize,
    pub dependency_count: usize,
    /// Whether the manifest has an install command sequence.
    pub has_install: bool,
    /// Whether the manifest has a validate command sequence.
    pub has_validate: bool,
    /// Whether the manifest has an invoke command sequence.
    pub has_invoke: bool,
    /// The text metadata of component 0, if the manifest carries it.
    pub text: Option<TextComponent>,
}

/// The summary of a manifest.
pub struct ManifestInfo {
    pub sequence_number: u64,
    pub security_version: Option<u64>,
    pub component_count: usize,
    pub dependency_count: usize,
    pub has_install: bool,
    pub has_validate: bool,
    pub has_invoke: bool,
    pub has_firmware: bool,
    pub text_version: Option<String>,
    pub text_vendor_name: Option<String>,
    pub text_model_name: Option<String>,
}

/// The summary of a manifest: its sequence number, security version, counts
/// and command sequences as they are; it carries firmware when it installs or
/// validates; the text fields come from component 0's text, if any.
pub fn manifest_info(fields: ManifestFields) -> (r: ManifestInfo)
    ensures
        r.sequence_number == fields.sequence_number,
        r.security_version == fields.security_version,
        r.component_count == fields.component_count,
        r.dependency_count == fields.dependency_count,
        r.has_install == fields.has_install,
        r.has_validate == fields.has_validate,
        r.has_invoke == fields.has_invoke,
        r.has_firmware == (fields.has_install || fields.has_validate),
        opt_text(r.text_version) == (match fields.text {
            Some(t) => opt_text(t.version),
            None => None,
        }),
        opt_text(r.text_vendor_name) == (match fields.text {
            Some(t) => opt_text(t.vendor_name),
            None => None,
        }),
        opt_text(r.text_model_name) == (match fields.text {
            Some(t) => opt_text(t.model_name),
            None => None,
        }),
{
    let (text_version, text_vendor_name, text_model_name) = match fields.text {
        Some(t) => (t.version, t.vendor_name, t.model_name),
        None => (None, None, None),
    };
    ManifestInfo {
        sequence_number: fields.sequence_number,
        security_version: fields.security_version,
        component_count: fields.component_count,
        dependency_count: fields.dependency_count,
        has_install: fields.has_install,
        has_validate: fields.has_validate,
        has_invoke: fields.has_invoke,
        has_firmware: fields.has_install || fields.has_validate,
        text_version,
        text_vendor_name,
        text_model_name,
    }
}

} // verus!
