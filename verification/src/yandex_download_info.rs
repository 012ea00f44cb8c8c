//! The download-info document of Yandex Music: a bounded event machine over the XML events of
//! `<download-info>` with exactly one `host`, `path`, `ts` and `s` child each.
use vstd::prelude::*;

use crate::text::chars_of;
use crate::track::copy_text;
use crate::yandex_music::{
    bounded_nonempty, invalid_response, is_bounded_nonempty, YandexDownloadInfo, YandexMusicError,
    YandexMusicErrorKind, YandexMusicSourceOptions,
};

use quick_xml::events::Event::{CData, Comment, Decl, DocType, Empty, End, Eof, GeneralRef, Start, Text, PI};
use quick_xml::reader::Reader;
use crate::yandex_download_info::XmlEventKind::{
    CData as CDataKind, Comment as CommentKind, Decl as DeclKind, DocType as DocTypeKind,
    Empty as EmptyKind, End as EndKind, Eof as EofKind, GeneralRef as GeneralRefKind,
    Instruction as InstructionKind, Malformed as MalformedKind, Start as StartKind,
    Text as TextKind,
};

verus! {

/// At most this many XML events are read from one document.
pub const MAX_DOWNLOAD_INFO_EVENTS: usize = 256;

/// Elements nest at most this deep.
pub const MAX_DOWNLOAD_INFO_DEPTH: usize = 16;

/// One XML event as the document machine sees it: a start tag with its name and whether it
/// has attributes, an end tag with its name, text with its content, the other kinds by name,
/// and `Malformed` for input the reader refused.
#[derive(Clone, Debug, PartialEq, Eq)]
pub enum XmlEvent {
    Start(String, bool),
    End(String),
    Empty,
    Text(String),
    CData,
    Comment,
    Decl,
    Instruction,
    DocType,
    GeneralRef,
    Eof,
    Malformed,
}

/// The fields of a download-info document.
#[derive(Clone, Copy, Debug, PartialEq, Eq, Structural)]
pub enum DownloadInfoField {
    Host,
    Path,
    Timestamp,
    Secret,
}

/// The field a child element names: `host`, `path`, `ts` or `s`.
pub open spec fn spec_download_field(name: Seq<char>) -> Option<DownloadInfoField> {
    if name == "host"@ {
        Some(DownloadInfoField::Host)
    } else if name == "path"@ {
        Some(DownloadInfoField::Path)
    } else if name == "ts"@ {
        Some(DownloadInfoField::Timestamp)
    } else if name == "s"@ {
        Some(DownloadInfoField::Secret)
    } else {
        None
    }
}

fn is_name(name: &str, literal: &str) -> (result: bool)
    ensures
        result == (name@ == literal@),
{
    crate::playlist::seq_equal(chars_of(name).as_slice(), chars_of(literal).as_slice())
}

pub fn download_info_field(name: &str) -> (field: Option<DownloadInfoField>)
    ensures
        field == spec_download_field(name@),
{
    if is_name(name, "host") {
        Some(DownloadInfoField::Host)
    } else if is_name(name, "path") {
        Some(DownloadInfoField::Path)
    } else if is_name(name, "ts") {
        Some(DownloadInfoField::Timestamp)
    } else if is_name(name, "s") {
        Some(DownloadInfoField::Secret)
    } else {
        None
    }
}

/// The state of the document machine: the element depth, whether the root was seen, the
/// field element being read, which field elements were seen, and the field values read.
pub struct DownloadScan {
    pub depth: int,
    pub root_seen: bool,
    pub active: Option<DownloadInfoField>,
    pub seen_host: bool,
    pub seen_path: bool,
    pub seen_timestamp: bool,
    pub seen_secret: bool,
    pub host: Option<Seq<char>>,
    pub path: Option<Seq<char>>,
    pub timestamp: Option<Seq<char>>,
    pub secret: Option<Seq<char>>,
}

pub open spec fn initial_scan() -> DownloadScan {
    DownloadScan {
        depth: 0,
        root_seen: false,
        active: None,
        seen_host: false,
        seen_path: false,
        seen_timestamp: false,
        seen_secret: false,
        host: None,
        path: None,
        timestamp: None,
        secret: None,
    }
}

pub open spec fn field_seen(scan: DownloadScan, f: DownloadInfoField) -> bool {
    match f {
        DownloadInfoField::Host => scan.seen_host,
        DownloadInfoField::Path => scan.seen_path,
        DownloadInfoField::Timestamp => scan.seen_timestamp,
        DownloadInfoField::Secret => scan.seen_secret,
    }
}

pub open spec fn mark_seen(scan: DownloadScan, f: DownloadInfoField) -> DownloadScan {
    match f {
        DownloadInfoField::Host => DownloadScan { seen_host: true, ..scan },
        DownloadInfoField::Path => DownloadScan { seen_path: true, ..scan },
        DownloadInfoField::Timestamp => DownloadScan { seen_timestamp: true, ..scan },
        DownloadInfoField::Secret => DownloadScan { seen_secret: true, ..scan },
    }
}

pub open spec fn field_value(scan: DownloadScan, f: DownloadInfoField) -> Option<Seq<char>> {
    match f {
        DownloadInfoField::Host => scan.host,
        DownloadInfoField::Path => scan.path,
        DownloadInfoField::Timestamp => scan.timestamp,
        DownloadInfoField::Secret => scan.secret,
    }
}

pub open spec fn fill_field(scan: DownloadScan, f: DownloadInfoField, v: Seq<char>) -> DownloadScan {
    match f {
        DownloadInfoField::Host => DownloadScan { host: Some(v), ..scan },
        DownloadInfoField::Path => DownloadScan { path: Some(v), ..scan },
        DownloadInfoField::Timestamp => DownloadScan { timestamp: Some(v), ..scan },
        DownloadInfoField::Secret => DownloadScan { secret: Some(v), ..scan },
    }
}

/// One event other than the end of input: the root must be a `download-info` element without
/// attributes; a field element directly below it has no attributes, occurs once and holds
/// text within `max_value` bytes; elements nest at most the depth limit and none opens
/// inside a field; declarations and comments pass; empty elements, CDATA, processing
/// instructions, document types, entity references and malformed input fail (`None`).
pub open spec fn scan_step(scan: DownloadScan, event: XmlEvent, max_value: int) -> Option<
    DownloadScan,
> {
    match event {
        XmlEvent::Start(name, has_attributes) => {
            let depth = scan.depth + 1;
            if depth > MAX_DOWNLOAD_INFO_DEPTH || scan.active is Some {
                None
            } else if depth == 1 {
                if scan.root_seen || name@ != "download-info"@ || has_attributes {
                    None
                } else {
                    Some(DownloadScan { depth, root_seen: true, ..scan })
                }
            } else if depth == 2 {
                match spec_download_field(name@) {
                    None => Some(DownloadScan { depth, active: None, ..scan }),
                    Some(f) => if has_attributes || field_seen(scan, f) {
                        None
                    } else {
                        Some(DownloadScan { depth, active: Some(f), ..mark_seen(scan, f) })
                    },
                }
            } else {
                Some(DownloadScan { depth, ..scan })
            }
        },
        XmlEvent::Text(text) => match scan.active {
            None => Some(scan),
            Some(f) => if !bounded_nonempty(text@, max_value) || field_value(scan, f) is Some {
                None
            } else {
                Some(fill_field(scan, f, text@))
            },
        },
        XmlEvent::End(name) => {
            if scan.depth == 0 {
                None
            } else if scan.depth == 2 {
                let ending = spec_download_field(name@);
                if ending is Some && ending != scan.active {
                    None
                } else {
                    Some(DownloadScan { depth: scan.depth - 1, active: None, ..scan })
                }
            } else {
                Some(DownloadScan { depth: scan.depth - 1, ..scan })
            }
        },
        XmlEvent::Decl => Some(scan),
        XmlEvent::Comment => Some(scan),
        _ => None,
    }
}

/// The end of input: every element closed, the root seen, and all four fields read.
pub open spec fn scan_finish(scan: DownloadScan) -> Option<(Seq<char>, Seq<char>, Seq<char>, Seq<char>)> {
    if scan.depth != 0 || !scan.root_seen || scan.active is Some {
        None
    } else {
        match (scan.host, scan.path, scan.timestamp, scan.secret) {
            (Some(h), Some(p), Some(t), Some(s)) => Some((h, p, t, s)),
            _ => None,
        }
    }
}

/// Runs the machine over events, `count` of them read before: at most the event limit is read,
/// the end of input finishes the document, and running out of events without it fails.
pub open spec fn scan_from(
    scan: DownloadScan,
    events: Seq<XmlEvent>,
    count: nat,
    max_value: int,
) -> Option<(Seq<char>, Seq<char>, Seq<char>, Seq<char>)>
    decreases events.len(),
{
    if events.len() == 0 || count + 1 > MAX_DOWNLOAD_INFO_EVENTS {
        None
    } else if events[0] is Eof {
        scan_finish(scan)
    } else {
        match scan_step(scan, events[0], max_value) {
            None => None,
            Some(next) => scan_from(next, events.drop_first(), count + 1, max_value),
        }
    }
}

/// The host, path, timestamp and secret of a document read from some events.
pub open spec fn spec_download_info_events(events: Seq<XmlEvent>, options: YandexMusicSourceOptions) -> Option<
    (Seq<char>, Seq<char>, Seq<char>, Seq<char>),
> {
    scan_from(initial_scan(), events, 0, options.max_playback_url_bytes as int)
}

pub open spec fn download_view(d: YandexDownloadInfo) -> (Seq<char>, Seq<char>, Seq<char>, Seq<char>) {
    (d.host@, d.path@, d.timestamp@, d.secret@)
}

/// Every field value read so far is non-empty and within the limit.
pub open spec fn scan_bounded(scan: DownloadScan, max_value: int) -> bool {
    &&& (scan.host matches Some(v) ==> bounded_nonempty(v, max_value))
    &&& (scan.path matches Some(v) ==> bounded_nonempty(v, max_value))
    &&& (scan.timestamp matches Some(v) ==> bounded_nonempty(v, max_value))
    &&& (scan.secret matches Some(v) ==> bounded_nonempty(v, max_value))
}

proof fn lemma_scan_from_bounded(scan: DownloadScan, events: Seq<XmlEvent>, count: nat, max_value: int)
    requires
        scan_bounded(scan, max_value),
    ensures
        scan_from(scan, events, count, max_value) matches Some((h, p, t, s)) ==> bounded_nonempty(
            h,
            max_value,
        ) && bounded_nonempty(p, max_value) && bounded_nonempty(t, max_value) && bounded_nonempty(
            s,
            max_value,
        ),
    decreases events.len(),
{
    if events.len() > 0 && count + 1 <= MAX_DOWNLOAD_INFO_EVENTS && !(events[0] is Eof) {
        match scan_step(scan, events[0], max_value) {
            None => {},
            Some(next) => {
                assert(scan_bounded(next, max_value));
                lemma_scan_from_bounded(next, events.drop_first(), count + 1, max_value);
            },
        }
    }
}

/// A download-info document that is accepted has all four fields non-empty and within the
/// playback URL limit.
pub proof fn law_download_info_fields_are_bounded(events: Seq<XmlEvent>, options: YandexMusicSourceOptions)
    ensures
        spec_download_info_events(events, options) matches Some((h, p, t, s)) ==> {
            let max = options.max_playback_url_bytes as int;
            bounded_nonempty(h, max) && bounded_nonempty(p, max) && bounded_nonempty(t, max)
                && bounded_nonempty(s, max)
        },
{
    lemma_scan_from_bounded(initial_scan(), events, 0, options.max_playback_url_bytes as int);
}

struct ScanState {
    depth: usize,
    root_seen: bool,
    active: Option<DownloadInfoField>,
    seen_host: bool,
    seen_path: bool,
    seen_timestamp: bool,
    seen_secret: bool,
    host: Option<String>,
    path: Option<String>,
    timestamp: Option<String>,
    secret: Option<String>,
}

impl View for ScanState {
    type V = DownloadScan;

    closed spec fn view(&self) -> DownloadScan {
        DownloadScan {
            depth: self.depth as int,
            root_seen: self.root_seen,
            active: self.active,
            seen_host: self.seen_host,
            seen_path: self.seen_path,
            seen_timestamp: self.seen_timestamp,
            seen_secret: self.seen_secret,
            host: crate::track::opt_text(self.host),
            path: crate::track::opt_text(self.path),
            timestamp: crate::track::opt_text(self.timestamp),
            secret: crate::track::opt_text(self.secret),
        }
    }
}

impl ScanState {
    fn new() -> (state: Self)
        ensures
            state@ == initial_scan(),
    {
        ScanState {
            depth: 0,
            root_seen: false,
            active: None,
            seen_host: false,
            seen_path: false,
            seen_timestamp: false,
            seen_secret: false,
            host: None,
            path: None,
            timestamp: None,
            secret: None,
        }
    }

    closed spec fn depth_ok(&self) -> bool {
        self.depth <= MAX_DOWNLOAD_INFO_DEPTH
    }

    fn is_seen(&self, f: DownloadInfoField) -> (seen: bool)
        ensures
            seen == field_seen(self@, f),
    {
        match f {
            DownloadInfoField::Host => self.seen_host,
            DownloadInfoField::Path => self.seen_path,
            DownloadInfoField::Timestamp => self.seen_timestamp,
            DownloadInfoField::Secret => self.seen_secret,
        }
    }

    fn has_value(&self, f: DownloadInfoField) -> (present: bool)
        ensures
            present == field_value(self@, f) is Some,
    {
        match f {
            DownloadInfoField::Host => self.host.is_some(),
            DownloadInfoField::Path => self.path.is_some(),
            DownloadInfoField::Timestamp => self.timestamp.is_some(),
            DownloadInfoField::Secret => self.secret.is_some(),
        }
    }

    /// One event other than the end of input.
    fn step(&mut self, event: &XmlEvent, max_value: usize) -> (result: Result<(), YandexMusicError>)
        requires
            old(self).depth_ok(),
        ensures
            final(self).depth_ok(),
            match scan_step(old(self)@, *event, max_value as int) {
                Some(next) => result is Ok && final(self)@ == next,
                None => result matches Err(e) && e.spec_kind()
                    == YandexMusicErrorKind::InvalidResponse,
            },
    {
        proof {
            reveal_strlit("download-info");
        }
        match event {
            XmlEvent::Start(name, has_attributes) => {
                let depth = self.depth + 1;
                if depth > MAX_DOWNLOAD_INFO_DEPTH || self.active.is_some() {
                    return Err(invalid_response());
                }
                if depth == 1 {
                    if self.root_seen || !is_name(name.as_str(), "download-info") || *has_attributes {
                        return Err(invalid_response());
                    }
                    self.root_seen = true;
                } else if depth == 2 {
                    match download_info_field(name.as_str()) {
                        None => {},
                        Some(f) => {
                            if *has_attributes || self.is_seen(f) {
                                return Err(invalid_response());
                            }
                            match f {
                                DownloadInfoField::Host => self.seen_host = true,
                                DownloadInfoField::Path => self.seen_path = true,
                                DownloadInfoField::Timestamp => self.seen_timestamp = true,
                                DownloadInfoField::Secret => self.seen_secret = true,
                            }
                            self.active = Some(f);
                        },
                    }
                }
                self.depth = depth;
                Ok(())
            },
            XmlEvent::Text(text) => match self.active {
                None => Ok(()),
                Some(f) => {
                    if !is_bounded_nonempty(text.as_str(), max_value) || self.has_value(f) {
                        return Err(invalid_response());
                    }
                    let value = copy_text(text.as_str());
                    match f {
                        DownloadInfoField::Host => self.host = Some(value),
                        DownloadInfoField::Path => self.path = Some(value),
                        DownloadInfoField::Timestamp => self.timestamp = Some(value),
                        DownloadInfoField::Secret => self.secret = Some(value),
                    }
                    Ok(())
                },
            },
            XmlEvent::End(name) => {
                if self.depth == 0 {
                    return Err(invalid_response());
                }
                if self.depth == 2 {
                    let ending = download_info_field(name.as_str());
                    if ending.is_some() && ending != self.active {
                        return Err(invalid_response());
                    }
                    self.active = None;
                }
                self.depth = self.depth - 1;
                Ok(())
            },
            XmlEvent::Decl => Ok(()),
            XmlEvent::Comment => Ok(()),
            _ => Err(invalid_response()),
        }
    }

    /// The end of input.
    fn finish(self) -> (result: Result<YandexDownloadInfo, YandexMusicError>)
        ensures
            match scan_finish(self@) {
                Some(v) => result matches Ok(d) && download_view(d) == v,
                None => result matches Err(e) && e.spec_kind()
                    == YandexMusicErrorKind::InvalidResponse,
            },
    {
        if self.depth != 0 || !self.root_seen || self.active.is_some() {
            return Err(invalid_response());
        }
        match (self.host, self.path, self.timestamp, self.secret) {
            (Some(host), Some(path), Some(timestamp), Some(secret)) => Ok(
                YandexDownloadInfo { host, path, timestamp, secret },
            ),
            _ => Err(invalid_response()),
        }
    }
}

/// Reads a download-info document from its XML events.
pub fn parse_download_info_events(events: &Vec<XmlEvent>, options: &YandexMusicSourceOptions) -> (result:
    Result<YandexDownloadInfo, YandexMusicError>)
    ensures
        match spec_download_info_events(events@, *options) {
            Some(v) => result matches Ok(d) && download_view(d) == v,
            None => result matches Err(e) && e.spec_kind() == YandexMusicErrorKind::InvalidResponse,
        },
{
    let max_value = options.max_playback_url_bytes;
    let mut state = ScanState::new();
    let mut k: usize = 0;
    proof {
        assert(events@.skip(0) =~= events@);
    }
    loop
        invariant
            k <= events@.len(),
            state.depth_ok(),
            max_value == options.max_playback_url_bytes,
            spec_download_info_events(events@, *options) == scan_from(
                state@,
                events@.skip(k as int),
                k as nat,
                max_value as int,
            ),
        decreases events@.len() - k,
    {
        if k >= events.len() || k + 1 > MAX_DOWNLOAD_INFO_EVENTS {
            return Err(invalid_response());
        }
        proof {
            assert(events@.skip(k as int)[0] == events@[k as int]);
            assert(events@.skip(k as int).drop_first() =~= events@.skip(k + 1));
        }
        match &events[k] {
            XmlEvent::Eof => {
                return state.finish();
            },
            event => {
                state.step(event, max_value)?;
            },
        }
        k = k + 1;
    }
}

/// The kind of one event the XML reader reports; `Malformed` stands for a read error.
#[derive(Clone, Copy, Debug, PartialEq, Eq, Structural)]
pub enum XmlEventKind {
    Start,
    End,
    Empty,
    Text,
    CData,
    Comment,
    Decl,
    Instruction,
    DocType,
    GeneralRef,
    Eof,
    Malformed,
}

/// What one event carries: a tag's name and whether it has attributes, a text, or nothing.
#[derive(Clone, Debug, PartialEq, Eq)]
pub enum XmlPayload {
    Tag(String, bool),
    Text(String),
    Nothing,
}

/// The kinds of the events that `quick_xml`'s reader reports for a document (surrounding
/// whitespace trimmed from text), in order, up to and including the first end of input or read
/// error.
pub uninterp spec fn xml_event_kinds(bytes: Seq<u8>) -> Seq<XmlEventKind>;

/// What the same events carry, in the same order.
pub uninterp spec fn xml_event_payloads(bytes: Seq<u8>) -> Seq<XmlPayload>;

/// Calls `quick_xml::reader::Reader::from_reader` on the bytes with the `trim_text` setting, then
/// `read_event` until the end of input or a read error, and keeps each event's kind. The
/// reader's output depends on the bytes alone, and is named [`xml_event_kinds`].
#[verifier::external_body]
fn read_xml_event_kinds(bytes: &[u8]) -> (kinds: Vec<XmlEventKind>)
    ensures
        kinds@ == xml_event_kinds(bytes@),
{
    let mut reader = Reader::from_reader(bytes);
    reader.config_mut().trim_text(true);
    let mut kinds = Vec::new();
    loop {
    let kind = match reader.read_event() {
            Err(_) => MalformedKind, Ok(Start(_)) => StartKind, Ok(End(_)) => EndKind, Ok(Empty(_)) => EmptyKind,
            Ok(Text(_)) => TextKind, Ok(CData(_)) => CDataKind, Ok(Comment(_)) => CommentKind, Ok(Decl(_)) => DeclKind,
            Ok(PI(_)) => InstructionKind, Ok(DocType(_)) => DocTypeKind, Ok(GeneralRef(_)) => GeneralRefKind, Ok(Eof) => EofKind,
        };
        kinds.push(kind);
        if kind == EofKind || kind == MalformedKind { return kinds; }
    }
}

/// Calls `quick_xml::reader::Reader::from_reader` on the bytes with the `trim_text` setting, then
/// `read_event` until the end of input or a read error, and keeps what each event carries: a
/// start tag's name and whether it has attributes, an end tag's name, a text's content, and
/// nothing for the other kinds. The reader's output depends on the bytes alone, and is named
/// [`xml_event_payloads`].
#[verifier::external_body]
fn read_xml_event_payloads(bytes: &[u8]) -> (payloads: Vec<XmlPayload>)
    ensures
        payloads@ == xml_event_payloads(bytes@),
{
    let mut reader = Reader::from_reader(bytes);
    reader.config_mut().trim_text(true);
    let mut payloads = Vec::new();
    loop {
        let payload = match reader.read_event() {
            Ok(Start(e)) => XmlPayload::Tag(e.name().0.to_string(), e.attributes().next().is_some()),
            Ok(End(e)) => XmlPayload::Tag(e.name().0.to_string(), false),
            Ok(Text(e)) => XmlPayload::Text(e.into_inner().into_owned()),
            Ok(Eof) | Err(_) => { payloads.push(XmlPayload::Nothing); return payloads; }
            Ok(_) => XmlPayload::Nothing,
        };
        payloads.push(payload);
    }
}

/// One event from its kind and what it carries; a tag or text kind without its payload counts
/// as malformed.
pub open spec fn event_of(kind: XmlEventKind, payload: XmlPayload) -> XmlEvent {
    match kind {
        XmlEventKind::Start => match payload {
            XmlPayload::Tag(name, attributes) => XmlEvent::Start(name, attributes),
            _ => XmlEvent::Malformed,
        },
        XmlEventKind::End => match payload {
            XmlPayload::Tag(name, _) => XmlEvent::End(name),
            _ => XmlEvent::Malformed,
        },
        XmlEventKind::Text => match payload {
            XmlPayload::Text(text) => XmlEvent::Text(text),
            _ => XmlEvent::Malformed,
        },
        XmlEventKind::Empty => XmlEvent::Empty,
        XmlEventKind::CData => XmlEvent::CData,
        XmlEventKind::Comment => XmlEvent::Comment,
        XmlEventKind::Decl => XmlEvent::Decl,
        XmlEventKind::Instruction => XmlEvent::Instruction,
        XmlEventKind::DocType => XmlEvent::DocType,
        XmlEventKind::GeneralRef => XmlEvent::GeneralRef,
        XmlEventKind::Eof => XmlEvent::Eof,
        XmlEventKind::Malformed => XmlEvent::Malformed,
    }
}

/// The events the XML reader reports for a document.
pub open spec fn xml_events(bytes: Seq<u8>) -> Seq<XmlEvent> {
    let kinds = xml_event_kinds(bytes);
    let payloads = xml_event_payloads(bytes);
    Seq::new(
        kinds.len(),
        |i: int|
            event_of(
                kinds[i],
                if i < payloads.len() {
                    payloads[i]
                } else {
                    XmlPayload::Nothing
                },
            ),
    )
}

fn exec_event_of(kind: XmlEventKind, payload: XmlPayload) -> (event: XmlEvent)
    ensures
        event == event_of(kind, payload),
{
    match kind {
        XmlEventKind::Start => match payload {
            XmlPayload::Tag(name, attributes) => XmlEvent::Start(name, attributes),
            _ => XmlEvent::Malformed,
        },
        XmlEventKind::End => match payload {
            XmlPayload::Tag(name, _) => XmlEvent::End(name),
            _ => XmlEvent::Malformed,
        },
        XmlEventKind::Text => match payload {
            XmlPayload::Text(text) => XmlEvent::Text(text),
            _ => XmlEvent::Malformed,
        },
        XmlEventKind::Empty => XmlEvent::Empty,
        XmlEventKind::CData => XmlEvent::CData,
        XmlEventKind::Comment => XmlEvent::Comment,
        XmlEventKind::Decl => XmlEvent::Decl,
        XmlEventKind::Instruction => XmlEvent::Instruction,
        XmlEventKind::DocType => XmlEvent::DocType,
        XmlEventKind::GeneralRef => XmlEvent::GeneralRef,
        XmlEventKind::Eof => XmlEvent::Eof,
        XmlEventKind::Malformed => XmlEvent::Malformed,
    }
}

/// Reads the events of a document: each kind with what its event carries.
fn read_xml_events(bytes: &[u8]) -> (events: Vec<XmlEvent>)
    ensures
        events@ == xml_events(bytes@),
{
    let kinds = read_xml_event_kinds(bytes);
    let mut rest = read_xml_event_payloads(bytes);
    let ghost all = xml_event_payloads(bytes@);
    let mut events: Vec<XmlEvent> = Vec::new();
    let mut i: usize = 0;
    proof {
        assert(all.skip(0) =~= all);
    }
    while i < kinds.len()
        invariant
            i <= kinds@.len(),
            kinds@ == xml_event_kinds(bytes@),
            all == xml_event_payloads(bytes@),
            rest@ == if i <= all.len() {
                all.skip(i as int)
            } else {
                Seq::empty()
            },
            events@ == xml_events(bytes@).take(i as int),
        decreases kinds@.len() - i,
    {
        let payload = if rest.len() > 0 {
            rest.remove(0)
        } else {
            XmlPayload::Nothing
        };
        proof {
            if i < all.len() {
                assert(payload == all[i as int]);
                assert(rest@ =~= all.skip(i + 1));
            }
        }
        events.push(exec_event_of(kinds[i], payload));
        proof {
            assert(events@ =~= xml_events(bytes@).take(i + 1));
        }
        i = i + 1;
    }
    proof {
        assert(xml_events(bytes@).take(i as int) =~= xml_events(bytes@));
    }
    events
}

/// Reads a download-info document from its bytes: the document machine over the events the
/// XML reader reports.
pub fn parse_download_info_xml(bytes: &[u8], options: &YandexMusicSourceOptions) -> (result: Result<
    YandexDownloadInfo,
    YandexMusicError,
>)
    ensures
        match spec_download_info_events(xml_events(bytes@), *options) {
            Some(v) => result matches Ok(d) && download_view(d) == v,
            None => result matches Err(e) && e.spec_kind() == YandexMusicErrorKind::InvalidResponse,
        },
{
    let events = read_xml_events(bytes);
    parse_download_info_events(&events, options)
}

} // verus!
