//! Locators: the on-disk paths and remote URLs that the traversal touches,
//! each built deterministically from a version label, a title id, a version
//! number or a content id.

use crate::codec::MetaType;
use crate::text::{hex_lower, push_decimal, push_hex16, spec_decimal, spec_hex16, spec_hex_lower};
use vstd::prelude::*;
use vstd::string::StringExecFns;

verus! {

/// The fixed title id whose container lists a firmware version's titles.
pub const ROOT_TITLE_ID: u64 = 0x0100000000000816;

/// The label a meta type is written as in an extracted payload's file name.
pub open spec fn spec_type_label(t: MetaType) -> Seq<char> {
    match t {
        MetaType::SystemProgram => "SystemProgram"@,
        MetaType::SystemData => "SystemData"@,
        MetaType::SystemUpdate => "SystemUpdate"@,
        MetaType::BootImagePackage => "BootImagePackage"@,
        MetaType::BootImagePackageSafe => "BootImagePackageSafe"@,
    }
}

/// The textual label of a meta type.
pub fn type_label(t: MetaType) -> (r: &'static str)
    ensures
        r@ == spec_type_label(t),
{
    match t {
        MetaType::SystemProgram => "SystemProgram",
        MetaType::SystemData => "SystemData",
        MetaType::SystemUpdate => "SystemUpdate",
        MetaType::BootImagePackage => "BootImagePackage",
        MetaType::BootImagePackageSafe => "BootImagePackageSafe",
    }
}

/// `<label>/<title id>.nca`: where a version's root update container lands.
pub open spec fn spec_root_container_path(label: Seq<char>) -> Seq<char> {
    label + "/"@ + spec_hex16(ROOT_TITLE_ID) + ".nca"@
}

pub fn root_container_path(label: &str) -> (r: String)
    ensures
        r@ == spec_root_container_path(label@),
{
    let mut s = label.to_owned();
    s.append("/");
    push_hex16(&mut s, ROOT_TITLE_ID);
    s.append(".nca");
    s
}

/// `<base>/t/s/<title id>/<version number>`: the root update container's URL.
pub open spec fn spec_root_container_url(base: Seq<char>, version_num: u64) -> Seq<char> {
    base + "/t/s/"@ + spec_hex16(ROOT_TITLE_ID) + "/"@ + spec_decimal(version_num as nat)
}

pub fn root_container_url(base: &str, version_num: u64) -> (r: String)
    ensures
        r@ == spec_root_container_url(base@, version_num),
{
    let mut s = base.to_owned();
    s.append("/t/s/");
    push_hex16(&mut s, ROOT_TITLE_ID);
    s.append("/");
    push_decimal(&mut s, version_num);
    s
}

/// `<container>.extracted`: where the extractor unpacks a container.
pub open spec fn spec_extract_dir(container: Seq<char>) -> Seq<char> {
    container + ".extracted"@
}

pub fn extract_dir(container: &str) -> (r: String)
    ensures
        r@ == spec_extract_dir(container@),
{
    let mut s = container.to_owned();
    s.append(".extracted");
    s
}

/// `<dir>/<type label>_<title id>.cnmt`: the metadata payload file the
/// extractor leaves behind, named after the meta type and the title id.
pub open spec fn spec_payload_path(dir: Seq<char>, t: MetaType, title_id: u64) -> Seq<char> {
    dir + "/"@ + spec_type_label(t) + "_"@ + spec_hex16(title_id) + ".cnmt"@
}

pub fn payload_path(dir: &str, t: MetaType, title_id: u64) -> (r: String)
    ensures
        r@ == spec_payload_path(dir@, t, title_id),
{
    let mut s = dir.to_owned();
    s.append("/");
    s.append(type_label(t));
    s.append("_");
    push_hex16(&mut s, title_id);
    s.append(".cnmt");
    s
}

/// `<label>/<title id>.cnmt.nca`: where a discovered title's container lands.
pub open spec fn spec_title_container_path(label: Seq<char>, title_id: u64) -> Seq<char> {
    label + "/"@ + spec_hex16(title_id) + ".cnmt.nca"@
}

pub fn title_container_path(label: &str, title_id: u64) -> (r: String)
    ensures
        r@ == spec_title_container_path(label@, title_id),
{
    let mut s = label.to_owned();
    s.append("/");
    push_hex16(&mut s, title_id);
    s.append(".cnmt.nca");
    s
}

/// `<base>/t/a/<title id>/<version>?device_id=<device id>`: a discovered
/// title's container URL.
pub open spec fn spec_title_container_url(
    base: Seq<char>,
    title_id: u64,
    title_version: u32,
    device_id: Seq<char>,
) -> Seq<char> {
    base + "/t/a/"@ + spec_hex16(title_id) + "/"@ + spec_decimal(title_version as nat)
        + "?device_id="@ + device_id
}

pub fn title_container_url(base: &str, title_id: u64, title_version: u32, device_id: &str) -> (r:
    String)
    ensures
        r@ == spec_title_container_url(base@, title_id, title_version, device_id@),
{
    let mut s = base.to_owned();
    s.append("/t/a/");
    push_hex16(&mut s, title_id);
    s.append("/");
    push_decimal(&mut s, title_version as u64);
    s.append("?device_id=");
    s.append(device_id);
    s
}

/// `<label>/<content id, hex>.nca`: where a content file lands.
pub open spec fn spec_content_path(label: Seq<char>, content_id: Seq<u8>) -> Seq<char> {
    label + "/"@ + spec_hex_lower(content_id) + ".nca"@
}

pub fn content_path(label: &str, content_id: &[u8]) -> (r: String)
    ensures
        r@ == spec_content_path(label@, content_id@),
{
    let mut s = label.to_owned();
    s.append("/");
    let hx = hex_lower(content_id);
    s.append(hx.as_str());
    s.append(".nca");
    s
}

/// `<base>/c/c/<content id, hex>`: a content file's URL.
pub open spec fn spec_content_url(base: Seq<char>, content_id: Seq<u8>) -> Seq<char> {
    base + "/c/c/"@ + spec_hex_lower(content_id)
}

pub fn content_url(base: &str, content_id: &[u8]) -> (r: String)
    ensures
        r@ == spec_content_url(base@, content_id@),
{
    let mut s = base.to_owned();
    s.append("/c/c/");
    let hx = hex_lower(content_id);
    s.append(hx.as_str());
    s
}

} // verus!
