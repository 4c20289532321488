//! Release-update decisions: version ordering and the update report built
//! from the latest published release.

use vstd::prelude::*;
use std::cmp::Ordering;
use crate::version::{version_cmp, version_components, compare_components};

verus! {

/// The outcome of an update check.
#[derive(Debug, Clone, PartialEq, Eq)]
pub struct UpdateInfo {
    pub current_version: String,
    pub latest_version: String,
    pub update_available: bool,
    pub download_url: String,
    pub release_notes: String,
}

/// A release tag without its leading `v`.
pub open spec fn strip_v(tag: Seq<char>) -> Seq<char> {
    if tag.len() > 0 && tag[0] == 'v' { tag.drop_first() } else { tag }
}

/// The page offered when a release names no page of its own.
pub open spec fn releases_page() -> Seq<char> {
    "https://github.com/purejiang/openstart/releases"@
}

/// Compares two dotted versions like "1.2.3": the first differing numeric
/// component decides; missing components count as 0 and a component that is
/// not a number counts as 0.
pub fn compare_versions(a: &str, b: &str) -> (r: Ordering)
    ensures
        (r == Ordering::Less) == (version_cmp(a@, b@) < 0),
        (r == Ordering::Equal) == (version_cmp(a@, b@) == 0),
        (r == Ordering::Greater) == (version_cmp(a@, b@) > 0),
{
    let va = version_components(a);
    let vb = version_components(b);
    let c = compare_components(va.as_slice(), vb.as_slice());
    if c < 0 {
        Ordering::Less
    } else if c > 0 {
        Ordering::Greater
    } else {
        Ordering::Equal
    }
}

/// Removes one leading `v` from a release tag.
fn strip_tag(tag: &str) -> (r: &str)
    ensures
        r@ == strip_v(tag@),
{
    let n = tag.unicode_len();
    if n > 0 && tag.get_char(0) == 'v' {
        tag.substring_char(1, n)
    } else {
        tag
    }
}

/// Builds the update report from what the latest release carries: its tag
/// (required), its page and its notes, against the running version.
pub fn update_info_from_release(
    current_version: &str,
    tag_name: Option<String>,
    html_url: Option<String>,
    body: Option<String>,
) -> (r: Result<UpdateInfo, String>)
    ensures
        tag_name is None ==> r is Err && r->Err_0@ == "Missing 'tag_name' in response"@,
        tag_name is Some ==> r is Ok,
        r matches Ok(info) ==> {
            &&& info.current_version@ == current_version@
            &&& info.latest_version@ == strip_v(tag_name->0@)
            &&& info.update_available == (version_cmp(strip_v(tag_name->0@), current_version@) > 0)
            &&& info.download_url@ == (match html_url { Some(u) => u@, None => releases_page() })
            &&& info.release_notes@ == (match body { Some(b) => b@, None => Seq::<char>::empty() })
        },
{
    let tag = match tag_name {
        Some(t) => t,
        None => {
            return Err("Missing 'tag_name' in response".to_owned());
        },
    };
    let latest = strip_tag(tag.as_str()).to_owned();
    let download_url = match html_url {
        Some(u) => u,
        None => "https://github.com/purejiang/openstart/releases".to_owned(),
    };
    let release_notes = match body {
        Some(b) => b,
        None => String::new(),
    };
    let update_available = match compare_versions(latest.as_str(), current_version) {
        Ordering::Greater => true,
        _ => false,
    };
    Ok(UpdateInfo {
        current_version: current_version.to_owned(),
        latest_version: latest,
        update_available,
        download_url,
        release_notes,
    })
}

} // verus!
