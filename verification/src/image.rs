//! The record of an image.

use vstd::prelude::*;
use vstd::string::*;

verus! {

/// What is recorded of an image.
#[derive(Debug, PartialEq)]
pub struct ImageEntry {
    /// What the image was pulled or built as.
    pub reference: String,
    /// Its name in this installation.
    pub local_name: String,
    pub disk_path: String,
    pub size_mib: u64,
    pub pulled_at: String,
    pub thin_id: Option<u64>,
}

/// An [`ImageEntry`], its strings taken by their texts.
#[verifier::ext_equal]
pub struct EntryView {
    pub reference: Seq<char>,
    pub local_name: Seq<char>,
    pub disk_path: Seq<char>,
    pub size_mib: u64,
    pub pulled_at: Seq<char>,
    pub thin_id: Option<u64>,
}

impl View for ImageEntry {
    type V = EntryView;

    open spec fn view(&self) -> EntryView {
        EntryView {
            reference: self.reference@,
            local_name: self.local_name@,
            disk_path: self.disk_path@,
            size_mib: self.size_mib,
            pulled_at: self.pulled_at@,
            thin_id: self.thin_id,
        }
    }
}

/// The record of an image on a volume. `reference` is what it was pulled or built
/// as, and `now` is when.
pub fn new_entry(reference: &str, local_name: &str, zvol: &str, size_mib: u64, now: &str) -> (r:
    ImageEntry)
    ensures
        r@ == (EntryView {
            reference: reference@,
            local_name: local_name@,
            disk_path: zvol@,
            size_mib,
            pulled_at: now@,
            thin_id: None,
        }),
{
    ImageEntry {
        reference: reference.to_owned(),
        local_name: local_name.to_owned(),
        disk_path: zvol.to_owned(),
        size_mib,
        pulled_at: now.to_owned(),
        thin_id: None,
    }
}

} // verus!
