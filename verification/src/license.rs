//! The license: how the replies of the license server are read, and what
//! is kept of a license in the settings.
//!
//! Talking to the license server is the caller's part.

use vstd::prelude::*;
use vstd::string::StringExecFns;
use crate::error::RecallError;
use crate::settings::{
    mask_license_key, masked_license_key, LicenseStatus, LicenseTier, Settings,
};
use crate::text::{decimal, push_decimal, trim, trimmed};

verus! {

/// The product that licenses are sold for.
pub const PRODUCT_ID: u64 = 805257;

/// What the license server replied to an activation.
#[derive(Debug, Clone)]
pub struct ActivationReply {
    pub activated: bool,
    pub error: Option<String>,
    pub product_id: Option<u64>,
    pub customer_name: Option<String>,
    pub customer_email: Option<String>,
    pub instance_id: Option<String>,
}

/// What the license server replied to a validation.
#[derive(Debug, Clone, Copy, PartialEq, Eq, Structural)]
pub struct ValidationReply {
    pub valid: bool,
    pub product_id: Option<u64>,
}

/// Why an activation is refused, if it is.
pub open spec fn activation_refusal(reply: ActivationReply) -> Option<Seq<char>> {
    match reply.error {
        Some(e) => Some("License activation failed: "@ + e@),
        None => if !reply.activated {
            Some("License activation failed. Please check your key and try again."@)
        } else if reply.product_id matches Some(p) && p != PRODUCT_ID {
            Some("This license key is not valid for RECALL.OS"@)
        } else {
            None
        },
    }
}

/// Readies a license key for activation: the white space around it is
/// removed; a key of nothing else is refused.
pub fn prepare_license_key(license_key: &str) -> (r: std::result::Result<String, RecallError>)
    ensures
        trimmed(license_key@).len() > 0 ==> (r matches Ok(k) && k@ == trimmed(license_key@)),
        trimmed(license_key@).len() == 0 ==> (r matches Err(RecallError::Other(m)) && m@
            == "License key cannot be empty"@),
{
    let key = trim(license_key);
    if key.as_str().is_empty() {
        Err(RecallError::Other("License key cannot be empty".to_owned()))
    } else {
        Ok(key)
    }
}

/// Reads the reply to an activation.
///
/// The activation holds only where the server reports no failure, says
/// that the key was activated, and names no other product.
pub fn read_activation(reply: &ActivationReply) -> (r: std::result::Result<(), RecallError>)
    ensures
        match activation_refusal(*reply) {
            Some(text) => r matches Err(RecallError::Other(m)) && m@ == text,
            None => r is Ok,
        },
{
    match &reply.error {
        Some(e) => {
            let mut m = String::new();
            m.append("License activation failed: ");
            m.append(e.as_str());
            return Err(RecallError::Other(m));
        },
        None => {},
    }
    if !reply.activated {
        return Err(
            RecallError::Other(
                "License activation failed. Please check your key and try again.".to_owned(),
            ),
        );
    }
    match reply.product_id {
        Some(p) => {
            if p != PRODUCT_ID {
                return Err(
                    RecallError::Other("This license key is not valid for RECALL.OS".to_owned()),
                );
            }
        },
        None => {},
    }
    Ok(())
}

/// Whether two settings differ in nothing but what they hold of the
/// license.
pub open spec fn differ_in_license_only(before: Settings, after: Settings) -> bool {
    after == (Settings {
        license_key: after.license_key,
        license_activated_at: after.license_activated_at,
        license_customer_name: after.license_customer_name,
        license_customer_email: after.license_customer_email,
        license_instance_id: after.license_instance_id,
        ..before
    })
}

/// Notes an activated license in the settings and gives its state for
/// display. Nothing else in the settings changes.
pub fn activate_license(
    settings: &mut Settings,
    key: String,
    reply: &ActivationReply,
    activated_at: String,
) -> (r: LicenseStatus)
    ensures
        differ_in_license_only(*old(settings), *final(settings)),
        final(settings).license_key matches Some(k) && k@ == key@,
        final(settings).license_activated_at matches Some(t) && t@ == activated_at@,
        final(settings).license_customer_name == reply.customer_name,
        final(settings).license_customer_email == reply.customer_email,
        final(settings).license_instance_id == reply.instance_id,
        r.is_valid,
        r.tier == LicenseTier::Licensed,
        r.license_key matches Some(k) && k@ == masked_license_key(key@),
        r.activated_at matches Some(t) && t@ == activated_at@,
        r.documents_used is None,
        r.documents_limit is None,
        r.customer_name == reply.customer_name,
        r.customer_email == reply.customer_email,
{
    let status = LicenseStatus {
        is_valid: true,
        license_key: Some(mask_license_key(key.as_str())),
        activated_at: Some(activated_at.clone()),
        tier: LicenseTier::Licensed,
        documents_used: None,
        documents_limit: None,
        customer_name: reply.customer_name.clone(),
        customer_email: reply.customer_email.clone(),
    };
    settings.license_key = Some(key);
    settings.license_activated_at = Some(activated_at);
    settings.license_customer_name = reply.customer_name.clone();
    settings.license_customer_email = reply.customer_email.clone();
    settings.license_instance_id = reply.instance_id.clone();
    status
}

/// Notes a license for trials of the program in the settings, as
/// development builds do, and gives its state for display. Nothing else
/// in the settings changes.
pub fn activate_test_license(settings: &mut Settings, activated_at: String) -> (r: LicenseStatus)
    ensures
        differ_in_license_only(*old(settings), *final(settings)),
        final(settings).license_key matches Some(k) && k@ == "TEST-LICENSE-KEY"@,
        final(settings).license_activated_at matches Some(t) && t@ == activated_at@,
        final(settings).license_customer_name matches Some(n) && n@ == "Test User"@,
        final(settings).license_customer_email matches Some(e) && e@ == "test@example.com"@,
        final(settings).license_instance_id matches Some(i) && i@ == "test-instance"@,
        r.is_valid,
        r.tier == LicenseTier::Licensed,
        r.license_key matches Some(k) && k@ == "****-TEST"@,
        r.activated_at matches Some(t) && t@ == activated_at@,
        r.documents_used is None,
        r.documents_limit is None,
        r.customer_name matches Some(n) && n@ == "Test User"@,
        r.customer_email matches Some(e) && e@ == "test@example.com"@,
{
    settings.license_key = Some("TEST-LICENSE-KEY".to_owned());
    settings.license_activated_at = Some(activated_at.clone());
    settings.license_customer_name = Some("Test User".to_owned());
    settings.license_customer_email = Some("test@example.com".to_owned());
    settings.license_instance_id = Some("test-instance".to_owned());
    LicenseStatus {
        is_valid: true,
        license_key: Some("****-TEST".to_owned()),
        activated_at: Some(activated_at),
        tier: LicenseTier::Licensed,
        documents_used: None,
        documents_limit: None,
        customer_name: Some("Test User".to_owned()),
        customer_email: Some("test@example.com".to_owned()),
    }
}

/// Takes the license out of the settings. Nothing else in the settings
/// changes.
pub fn deactivate_license(settings: &mut Settings)
    ensures
        differ_in_license_only(*old(settings), *final(settings)),
        final(settings).license_key is None,
        final(settings).license_activated_at is None,
        final(settings).license_customer_name is None,
        final(settings).license_customer_email is None,
        final(settings).license_instance_id is None,
{
    settings.license_key = None;
    settings.license_activated_at = None;
    settings.license_customer_name = None;
    settings.license_customer_email = None;
    settings.license_instance_id = None;
}

/// How a validation went.
#[derive(Debug, Clone, Copy, PartialEq, Eq, Structural)]
pub enum ValidationOutcome {
    /// The server could not be reached.
    Unreachable,
    /// The server's reply could not be read.
    Unreadable,
    /// The server replied.
    Replied(ValidationReply),
}

/// What a validation comes to.
#[derive(Debug, Clone, Copy, PartialEq, Eq, Structural)]
pub enum LicenseVerdict {
    /// The license holds.
    Valid,
    /// The license does not hold.
    Invalid,
    /// The license holds no longer: take it out of the settings.
    Revoked,
}

/// Reads the outcome of a validation.
///
/// Without a key nothing holds. A server that cannot be reached does not
/// take a license away: the program can be used off line. A license that
/// the server calls invalid is revoked.
pub fn verify_license(has_key: bool, outcome: ValidationOutcome) -> (r: LicenseVerdict)
    ensures
        r == if !has_key {
            LicenseVerdict::Invalid
        } else {
            match outcome {
                ValidationOutcome::Unreachable => LicenseVerdict::Valid,
                ValidationOutcome::Unreadable => LicenseVerdict::Invalid,
                ValidationOutcome::Replied(reply) => if !reply.valid {
                    LicenseVerdict::Revoked
                } else if reply.product_id matches Some(p) && p != PRODUCT_ID {
                    LicenseVerdict::Invalid
                } else {
                    LicenseVerdict::Valid
                },
            }
        },
{
    if !has_key {
        return LicenseVerdict::Invalid;
    }
    match outcome {
        ValidationOutcome::Unreachable => LicenseVerdict::Valid,
        ValidationOutcome::Unreadable => LicenseVerdict::Invalid,
        ValidationOutcome::Replied(reply) => {
            if !reply.valid {
                LicenseVerdict::Revoked
            } else {
                match reply.product_id {
                    Some(p) => if p != PRODUCT_ID {
                        LicenseVerdict::Invalid
                    } else {
                        LicenseVerdict::Valid
                    },
                    None => LicenseVerdict::Valid,
                }
            }
        },
    }
}

/// Takes a revoked license out of the settings: the key and the time of
/// its activation go, what is known of the customer stays, and so does
/// every other setting.
pub fn revoke_license(settings: &mut Settings)
    ensures
        differ_in_license_only(*old(settings), *final(settings)),
        final(settings).license_key is None,
        final(settings).license_activated_at is None,
        final(settings).license_customer_name == old(settings).license_customer_name,
        final(settings).license_customer_email == old(settings).license_customer_email,
        final(settings).license_instance_id == old(settings).license_instance_id,
{
    settings.license_key = None;
    settings.license_activated_at = None;
}

/// The name under which this machine is known to the license server:
/// `RECALL-` and the name of the host, or else the time in seconds.
pub fn get_instance_id(hostname: Option<&str>, now_secs: u64) -> (r: String)
    ensures
        r@ == "RECALL-"@ + match hostname {
            Some(h) => h@,
            None => decimal(now_secs as nat),
        },
{
    let mut r = String::new();
    r.append("RECALL-");
    match hostname {
        Some(h) => {
            r.append(h);
        },
        None => {
            push_decimal(&mut r, now_secs);
        },
    }
    r
}

} // verus!
