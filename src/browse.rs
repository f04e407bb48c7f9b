//! Browsing a media server's catalog by navigation path.
use vstd::prelude::*;

use crate::didl::{entries_view, opt_view, pairs_view, DidlEntry, DidlEntryView};
use crate::path_index::{path_view, resolve_spec, PathIndex};
use crate::soap::{browse_outcome, browse_request_body, interpret_browse_response, BROWSE_ENVELOPE_HEAD, BROWSE_ENVELOPE_TAIL};
use crate::text::concat;

verus! {

/// A media server found on the network.
#[derive(Debug, Clone)]
pub struct UpnpDevice {
    pub name: String,
    /// Where the device was found: its description document or its endpoint. Devices are
    /// told apart by it.
    pub location: String,
    pub base_url: String,
    /// Where the record came from (a manufacturer, a device type or the probe that found it).
    pub device_client: Option<String>,
    pub content_directory_url: Option<String>,
}

pub struct UpnpDeviceView {
    pub name: Seq<char>,
    pub location: Seq<char>,
    pub base_url: Seq<char>,
    pub device_client: Option<Seq<char>>,
    pub content_directory_url: Option<Seq<char>>,
}

impl View for UpnpDevice {
    type V = UpnpDeviceView;

    open spec fn view(&self) -> UpnpDeviceView {
        UpnpDeviceView {
            name: self.name@,
            location: self.location@,
            base_url: self.base_url@,
            device_client: opt_view(self.device_client),
            content_directory_url: opt_view(self.content_directory_url),
        }
    }
}

pub open spec fn upnp_devices_view(v: Seq<UpnpDevice>) -> Seq<UpnpDeviceView> {
    Seq::new(v.len(), |i: int| v[i]@)
}

/// Copies a device record.
pub fn copy_upnp_device(d: &UpnpDevice) -> (r: UpnpDevice)
    ensures
        r@ == d@,
{
    UpnpDevice {
        name: d.name.clone(),
        location: d.location.clone(),
        base_url: d.base_url.clone(),
        device_client: match &d.device_client {
            Some(c) => Some(c.clone()),
            None => None,
        },
        content_directory_url: match &d.content_directory_url {
            Some(c) => Some(c.clone()),
            None => None,
        },
    }
}

/// What is known of a playable file.
#[derive(Debug, Clone)]
pub struct FileMetadata {
    pub size: Option<u64>,
    pub duration: Option<String>,
    pub format: Option<String>,
}

/// One line of a directory listing.
#[derive(Debug, Clone)]
pub struct DirectoryItem {
    pub name: String,
    pub is_directory: bool,
    pub url: Option<String>,
    /// Present for files only.
    pub metadata: Option<FileMetadata>,
}

pub struct FileMetadataView {
    pub size: Option<u64>,
    pub duration: Option<Seq<char>>,
    pub format: Option<Seq<char>>,
}

pub struct DirectoryItemView {
    pub name: Seq<char>,
    pub is_directory: bool,
    pub url: Option<Seq<char>>,
    pub metadata: Option<FileMetadataView>,
}

impl View for DirectoryItem {
    type V = DirectoryItemView;

    open spec fn view(&self) -> DirectoryItemView {
        DirectoryItemView {
            name: self.name@,
            is_directory: self.is_directory,
            url: opt_view(self.url),
            metadata: match self.metadata {
                Some(m) => Some(
                    FileMetadataView { size: m.size, duration: opt_view(m.duration), format: opt_view(m.format) },
                ),
                None => None,
            },
        }
    }
}

pub open spec fn items_view(v: Seq<DirectoryItem>) -> Seq<DirectoryItemView> {
    Seq::new(v.len(), |i: int| v[i]@)
}

/// The listing line of a catalog entry: metadata only for items, not for containers.
pub open spec fn item_of(e: DidlEntryView) -> DirectoryItemView {
    DirectoryItemView {
        name: e.title,
        is_directory: e.is_container,
        url: e.resource_url,
        metadata: if e.is_container {
            None
        } else {
            Some(FileMetadataView { size: e.size, duration: e.duration, format: e.format })
        },
    }
}

pub open spec fn items_of(es: Seq<DidlEntryView>) -> Seq<DirectoryItemView> {
    Seq::new(es.len(), |i: int| item_of(es[i]))
}

/// The index after learning the containers listed under `parent`, in order.
pub open spec fn extend_all(
    m: Map<Seq<Seq<char>>, Seq<char>>,
    parent: Seq<Seq<char>>,
    pairs: Seq<(Seq<char>, Seq<char>)>,
) -> Map<Seq<Seq<char>>, Seq<char>>
    decreases pairs.len(),
{
    if pairs.len() == 0 {
        m
    } else {
        extend_all(m, parent, pairs.drop_last()).insert(parent.push(pairs.last().0), pairs.last().1)
    }
}

/// A `Browse` request ready to be sent.
#[derive(Debug, Clone)]
pub struct BrowseRequest {
    /// Where to POST.
    pub control_url: String,
    /// The container whose children are asked for.
    pub container_id: String,
    /// The SOAP envelope.
    pub body: String,
}

pub open spec fn no_service_message() -> Seq<char> {
    "No UPnP ContentDirectory service available"@
}

/// The request for the children of the container at `path`, or a message where the server
/// has no ContentDirectory service.
pub fn prepare_browse(server: &UpnpDevice, path: &[String], index: &PathIndex) -> (r: Result<
    BrowseRequest,
    String,
>)
    ensures
        match server.content_directory_url {
            None => (r matches Err(m) && m@ == no_service_message()),
            Some(u) => (r matches Ok(req) && req.control_url@ == u@ && req.container_id@
                == resolve_spec(index@, path_view(path@)) && req.body@ == BROWSE_ENVELOPE_HEAD@
                + req.container_id@ + BROWSE_ENVELOPE_TAIL@),
        },
{
    match &server.content_directory_url {
        None => Err(String::from_str("No UPnP ContentDirectory service available")),
        Some(u) => {
            let container_id = index.resolve(path);
            let body = browse_request_body(container_id.as_str());
            Ok(BrowseRequest { control_url: u.clone(), container_id, body })
        },
    }
}

fn copy_opt(o: &Option<String>) -> (r: Option<String>)
    ensures
        opt_view(r) == opt_view(*o),
{
    match o {
        Some(v) => Some(v.clone()),
        None => None,
    }
}

fn item_from_entry(e: &DidlEntry) -> (r: DirectoryItem)
    ensures
        r@ == item_of(e@),
{
    let metadata = if e.is_container {
        None
    } else {
        Some(FileMetadata { size: e.size, duration: copy_opt(&e.duration), format: copy_opt(&e.format) })
    };
    DirectoryItem {
        name: e.title.clone(),
        is_directory: e.is_container,
        url: copy_opt(&e.resource_url),
        metadata,
    }
}

/// The listing lines of catalog entries, in order.
pub fn items_from_entries(entries: &Vec<DidlEntry>) -> (r: Vec<DirectoryItem>)
    ensures
        items_view(r@) == items_of(entries_view(entries@)),
{
    let mut out: Vec<DirectoryItem> = Vec::new();
    let mut i: usize = 0;
    while i < entries.len()
        invariant
            i <= entries.len(),
            out@.len() == i,
            forall|k: int| 0 <= k < i ==> (#[trigger] out@[k])@ == item_of(entries@[k]@),
        decreases entries.len() - i,
    {
        out.push(item_from_entry(&entries[i]));
        i = i + 1;
    }
    assert(items_view(out@) =~= items_of(entries_view(entries@)));
    out
}

/// Records, for each `(title, id)` pair, that `parent` followed by `title` is the container
/// `id`.
pub fn learn_containers(index: &mut PathIndex, parent: &[String], pairs: &Vec<(String, String)>)
    ensures
        final(index)@ == extend_all(old(index)@, path_view(parent@), pairs_view(pairs@)),
{
    let ghost all = pairs_view(pairs@);
    let mut i: usize = 0;
    assert(all.subrange(0, 0) =~= Seq::<(Seq<char>, Seq<char>)>::empty());
    while i < pairs.len()
        invariant
            i <= pairs.len(),
            all == pairs_view(pairs@),
            index@ == extend_all(old(index)@, path_view(parent@), all.subrange(0, i as int)),
        decreases pairs.len() - i,
    {
        index.extend(parent, &pairs[i].0, &pairs[i].1);
        assert(all.subrange(0, i + 1).drop_last() =~= all.subrange(0, i as int));
        i = i + 1;
    }
    assert(all.subrange(0, i as int) =~= all);
}

pub open spec fn failure_message(detail: Seq<char>) -> Seq<char> {
    "UPnP ContentDirectory failed: "@ + detail
}

/// The listing of the container at `path`, from the reply to its `Browse` request (or the
/// transport failure that stood in its place). A readable reply gives its entries as
/// listing lines, no message, and teaches the index each titled container under `path`;
/// any failure gives an empty listing, a message, and leaves the index as it was.
pub fn browse_directory(path: &[String], index: &mut PathIndex, reply: Result<(u16, String), String>) -> (r: (
    Vec<DirectoryItem>,
    Option<String>,
))
    ensures
        match reply {
            Err(m) => items_view(r.0@).len() == 0 && opt_view(r.1) == Some(failure_message(m@))
                && final(index)@ == old(index)@,
            Ok((status, body)) => match browse_outcome(status, body@) {
                Ok((entries, pairs)) => items_view(r.0@) == items_of(entries) && r.1 is None
                    && final(index)@ == extend_all(old(index)@, path_view(path@), pairs),
                Err(e) => items_view(r.0@).len() == 0 && opt_view(r.1) == Some(
                    failure_message(e.describe_spec()),
                ) && final(index)@ == old(index)@,
            },
        },
{
    match reply {
        Err(m) => (Vec::new(), Some(concat("UPnP ContentDirectory failed: ", m.as_str()))),
        Ok((status, body)) => match interpret_browse_response(status, body.as_str()) {
            Ok((entries, pairs)) => {
                learn_containers(index, path, &pairs);
                (items_from_entries(&entries), None)
            },
            Err(e) => {
                let d = e.describe();
                (Vec::new(), Some(concat("UPnP ContentDirectory failed: ", d.as_str())))
            },
        },
    }
}

} // verus!
