use vstd::prelude::*;

use crate::helper::{ElementId, LocationId, ModuleId};
use crate::settings::{atom_entries, Atom, AtomView, SettingView, Settings};
use crate::strmap::StrMap;
use bytes_kman::TBytes;
use vstd::utf8::encode_utf8;

verus! {

#[derive(Debug)]
/// A folder of elements and of other locations.
pub struct Location {
    pub name: String,
    pub desc: String,
    pub data: StrMap<Atom>,
    pub path: String,
    pub settings: Settings,
    pub module: Option<ModuleId>,
    pub id: LocationId,
    pub parent: Option<LocationId>,
    pub locations: Vec<LocationId>,
    pub elements: Vec<ElementId>,
    pub buffer: Vec<u8>,
    pub status: usize,
    pub statuses: Vec<String>,
    pub download_speed: usize,
    pub upload_speed: usize,
    pub download_speed_counter: usize,
    pub upload_speed_counter: usize,
    pub total_download: usize,
    pub total_upload: usize,
    pub enabled: bool,
    pub is_error: bool,
    pub is_completed: bool,
}

/// What a [`Location`] stands for.
pub struct LocationView {
    pub name: Seq<char>,
    pub desc: Seq<char>,
    pub data: Seq<(Seq<char>, AtomView)>,
    pub path: Seq<char>,
    pub settings: Seq<(Seq<char>, SettingView)>,
    pub module: Option<ModuleId>,
    pub id: LocationId,
    pub parent: Option<LocationId>,
    pub locations: Seq<LocationId>,
    pub elements: Seq<ElementId>,
    pub buffer: Seq<u8>,
    pub status: usize,
    pub statuses: Seq<Seq<char>>,
    pub download_speed: usize,
    pub upload_speed: usize,
    pub download_speed_counter: usize,
    pub upload_speed_counter: usize,
    pub total_download: usize,
    pub total_upload: usize,
    pub enabled: bool,
    pub is_error: bool,
    pub is_completed: bool,
}

impl View for Location {
    type V = LocationView;

    open spec fn view(&self) -> LocationView {
        LocationView {
            name: self.name@,
            desc: self.desc@,
            data: atom_entries(self.data),
            path: self.path@,
            settings: self.settings.entries_view(),
            module: self.module,
            id: self.id,
            parent: self.parent,
            locations: self.locations@,
            elements: self.elements@,
            buffer: self.buffer@,
            status: self.status,
            statuses: self.statuses@.map_values(|s: String| s@),
            download_speed: self.download_speed,
            upload_speed: self.upload_speed,
            download_speed_counter: self.download_speed_counter,
            upload_speed_counter: self.upload_speed_counter,
            total_download: self.total_download,
            total_upload: self.total_upload,
            enabled: self.enabled,
            is_error: self.is_error,
            is_completed: self.is_completed,
        }
    }
}

/// A new, empty location.
pub open spec fn fresh_location(
    name: Seq<char>,
    desc: Seq<char>,
    id: LocationId,
    parent: Option<LocationId>,
) -> LocationView {
    LocationView {
        name,
        desc,
        data: Seq::empty(),
        path: Seq::empty(),
        settings: Seq::empty(),
        module: None,
        id,
        parent,
        locations: Seq::empty(),
        elements: Seq::empty(),
        buffer: Seq::empty(),
        status: 0,
        statuses: Seq::empty(),
        download_speed: 0,
        upload_speed: 0,
        download_speed_counter: 0,
        upload_speed_counter: 0,
        total_download: 0,
        total_upload: 0,
        enabled: false,
        is_error: false,
        is_completed: false,
    }
}

impl Location {
    /// A new, empty location.
    pub fn fresh(name: String, desc: String, id: LocationId, parent: Option<LocationId>) -> (l: Self)
        ensures
            l@ == fresh_location(name@, desc@, id, parent),
            l.settings.wf(),
            l.data.wf(),
    {
        let l = Location {
            name,
            desc,
            data: StrMap::new(),
            path: String::new(),
            settings: Settings::new(),
            module: None,
            id,
            parent,
            locations: Vec::new(),
            elements: Vec::new(),
            buffer: Vec::new(),
            status: 0,
            statuses: Vec::new(),
            download_speed: 0,
            upload_speed: 0,
            download_speed_counter: 0,
            upload_speed_counter: 0,
            total_download: 0,
            total_upload: 0,
            enabled: false,
            is_error: false,
            is_completed: false,
        };
        assert(atom_entries(l.data) =~= Seq::empty());
        assert(l.settings.entries_view() =~= Seq::empty());
        assert(l.statuses@.map_values(|s: String| s@) =~= Seq::empty());
        assert(l.locations@ =~= Seq::empty());
        assert(l.elements@ =~= Seq::empty());
        assert(l@ == fresh_location(name@, desc@, id, parent));
        l
    }
}

/// The `k` lowest bytes of `n`, lowest first.
pub open spec fn le_bytes(n: nat, k: nat) -> Seq<u8>
    decreases k,
{
    if k == 0 {
        Seq::empty()
    } else {
        seq![(n % 256) as u8] + le_bytes(n / 256, (k - 1) as nat)
    }
}

/// The number whose bytes, lowest first, are `b`.
pub open spec fn le_value(b: Seq<u8>) -> nat
    decreases b.len(),
{
    if b.len() == 0 {
        0
    } else {
        b[0] as nat + 256 * le_value(b.drop_first())
    }
}

/// The bytes that `bytes_kman` writes for a text: the length of its UTF-8
/// form in eight bytes, lowest first, then that form.
pub open spec fn string_bytes(s: Seq<char>) -> Seq<u8> {
    le_bytes(encode_utf8(s).len(), 8) + encode_utf8(s)
}

/// The bytes that `bytes_kman` writes for a `u16`: lowest first.
pub open spec fn u16_bytes(v: u16) -> Seq<u8> {
    le_bytes(v as nat, 2)
}

/// The bytes that `bytes_kman` writes for an optional text: a 0 for none,
/// else a 1 and the text.
pub open spec fn opt_string_bytes(o: Option<Seq<char>>) -> Seq<u8> {
    match o {
        None => seq![0u8],
        Some(t) => seq![1u8] + string_bytes(t),
    }
}

/// What `bytes_kman` reads as a text from the front of `buf`, and what is
/// left: eight bytes of length, then that many bytes, each taken as the
/// character of the same number. When the bytes run short, nothing is read
/// and the buffer is as it was.
pub open spec fn string_from(buf: Seq<u8>) -> (Option<Seq<char>>, Seq<u8>) {
    if buf.len() < 8 {
        (None, buf)
    } else {
        let len = le_value(buf.take(8));
        let rest = buf.skip(8);
        if rest.len() < len {
            (None, buf)
        } else {
            (Some(rest.take(len as int).map_values(|b: u8| b as char)), rest.skip(len as int))
        }
    }
}

/// What `bytes_kman` reads as a `u16` from the front of `buf`, and what is
/// left.
pub open spec fn u16_from(buf: Seq<u8>) -> (Option<u16>, Seq<u8>) {
    if buf.len() < 2 {
        (None, buf)
    } else {
        (Some((buf[0] as nat + 256 * (buf[1] as nat)) as u16), buf.skip(2))
    }
}

/// What `bytes_kman` reads as an optional text from the front of `buf`, and
/// what is left; when the text runs short, the buffer is as it was.
pub open spec fn opt_string_from(buf: Seq<u8>) -> (Option<Option<Seq<char>>>, Seq<u8>) {
    if buf.len() < 1 {
        (None, buf)
    } else if buf[0] > 0 {
        let inner = string_from(buf.skip(1));
        match inner.0 {
            Some(t) => (Some(Some(t)), inner.1),
            None => (None, buf),
        }
    } else {
        (Some(None), buf.skip(1))
    }
}

/// The text of an optional string.
pub open spec fn opt_text(o: Option<String>) -> Option<Seq<char>> {
    match o {
        Some(s) => Some(s@),
        None => None,
    }
}

/// Calls `<String as TBytes>::size`, which claims the UTF-8 length plus the
/// eight bytes of its length.
#[verifier::external_body]
fn string_size(s: &String) -> (r: usize)
    requires
        encode_utf8(s@).len() + 8 <= usize::MAX,
    ensures
        r == encode_utf8(s@).len() + 8,
{
    s.size()
}

/// Calls `<String as TBytes>::to_bytes`; see [`string_bytes`].
#[verifier::external_body]
fn string_to_bytes(s: &String) -> (r: Vec<u8>)
    ensures
        r@ == string_bytes(s@),
{
    s.to_bytes()
}

/// Calls `<String as TBytes>::from_bytes`; see [`string_from`].
#[verifier::external_body]
fn string_from_bytes(buffer: &mut Vec<u8>) -> (r: Option<String>)
    ensures
        (opt_text(r), final(buffer)@) == string_from(old(buffer)@),
{
    String::from_bytes(buffer)
}

/// Calls `<u16 as TBytes>::size`, which is two.
#[verifier::external_body]
fn u16_size(v: &u16) -> (r: usize)
    ensures
        r == 2,
{
    v.size()
}

/// Calls `<u16 as TBytes>::to_bytes`; see [`u16_bytes`].
#[verifier::external_body]
fn u16_to_bytes(v: &u16) -> (r: Vec<u8>)
    ensures
        r@ == u16_bytes(*v),
{
    v.to_bytes()
}

/// Calls `<u16 as TBytes>::from_bytes`; see [`u16_from`].
#[verifier::external_body]
fn u16_from_bytes(buffer: &mut Vec<u8>) -> (r: Option<u16>)
    ensures
        (r, final(buffer)@) == u16_from(old(buffer)@),
{
    u16::from_bytes(buffer)
}

/// Calls `<Option<String> as TBytes>::size`: one, plus the size of the text
/// when there is one.
#[verifier::external_body]
fn opt_string_size(o: &Option<String>) -> (r: usize)
    requires
        o matches Some(s) ==> encode_utf8(s@).len() + 9 <= usize::MAX,
    ensures
        r == match o {
            Some(s) => encode_utf8(s@).len() + 9,
            None => 1,
        },
{
    o.size()
}

/// Calls `<Option<String> as TBytes>::to_bytes`; see [`opt_string_bytes`].
#[verifier::external_body]
fn opt_string_to_bytes(o: &Option<String>) -> (r: Vec<u8>)
    ensures
        r@ == opt_string_bytes(opt_text(*o)),
{
    o.to_bytes()
}

/// Calls `<Option<String> as TBytes>::from_bytes`; see [`opt_string_from`].
#[verifier::external_body]
fn opt_string_from_bytes(buffer: &mut Vec<u8>) -> (r: Option<Option<String>>)
    ensures
        (match r {
            Some(o) => Some(opt_text(o)),
            None => None,
        }, final(buffer)@) == opt_string_from(old(buffer)@),
{
    <Option<String>>::from_bytes(buffer)
}

/// A location on a server: its address (as text), port, identification and
/// certificate.
#[derive(Debug)]
pub struct ServerLocation {
    pub ip: String,
    pub port: u16,
    pub indentification: String,
    pub server_cert: Option<String>,
}

/// What a [`ServerLocation`] stands for.
pub struct ServerLocationView {
    pub ip: Seq<char>,
    pub port: u16,
    pub indentification: Seq<char>,
    pub server_cert: Option<Seq<char>>,
}

impl View for ServerLocation {
    type V = ServerLocationView;

    open spec fn view(&self) -> ServerLocationView {
        ServerLocationView {
            ip: self.ip@,
            port: self.port,
            indentification: self.indentification@,
            server_cert: opt_text(self.server_cert),
        }
    }
}

/// The bytes of a server location: address, port, identification and
/// certificate, one after the other.
pub open spec fn server_bytes(v: ServerLocationView) -> Seq<u8> {
    string_bytes(v.ip) + u16_bytes(v.port) + string_bytes(v.indentification) + opt_string_bytes(
        v.server_cert,
    )
}

/// What reading a server location from the front of `buf` gives, and what
/// is left: the parts are read in turn, and reading stops at the first that
/// runs short, with what was read so far taken off the buffer.
pub open spec fn server_from(buf: Seq<u8>) -> (Option<ServerLocationView>, Seq<u8>) {
    let a = string_from(buf);
    match a.0 {
        None => (None, a.1),
        Some(ip) => {
            let b = u16_from(a.1);
            match b.0 {
                None => (None, b.1),
                Some(port) => {
                    let c = string_from(b.1);
                    match c.0 {
                        None => (None, c.1),
                        Some(ident) => {
                            let d = opt_string_from(c.1);
                            match d.0 {
                                None => (None, d.1),
                                Some(cert) => (
                                    Some(
                                        ServerLocationView {
                                            ip,
                                            port,
                                            indentification: ident,
                                            server_cert: cert,
                                        },
                                    ),
                                    d.1,
                                ),
                            }
                        },
                    }
                },
            }
        },
    }
}

impl ServerLocation {
    /// How many bytes [`ServerLocation::to_bytes`] writes.
    pub fn size(&self) -> (r: usize)
        requires
            encode_utf8(self.ip@).len() + encode_utf8(self.indentification@).len() + 2 + 16 + match self.server_cert {
                Some(c) => encode_utf8(c@).len() + 9,
                None => 1,
            } <= usize::MAX,
        ensures
            r == server_bytes(self@).len(),
    {
        let a = string_size(&self.ip);
        let b = u16_size(&self.port);
        let c = string_size(&self.indentification);
        let d = opt_string_size(&self.server_cert);
        proof {
            assert(le_bytes(encode_utf8(self.ip@).len(), 8).len() == 8) by {
                reveal_with_fuel(le_bytes, 9);
            }
            assert(le_bytes(encode_utf8(self.indentification@).len(), 8).len() == 8) by {
                reveal_with_fuel(le_bytes, 9);
            }
            assert(le_bytes(self.port as nat, 2).len() == 2) by {
                reveal_with_fuel(le_bytes, 3);
            }
            if let Some(cert) = &self.server_cert {
                assert(le_bytes(encode_utf8(cert@).len(), 8).len() == 8) by {
                    reveal_with_fuel(le_bytes, 9);
                }
            }
        }
        a + b + c + d
    }

    /// The bytes of this location: address, port, identification and
    /// certificate, one after the other.
    pub fn to_bytes(&self) -> (r: Vec<u8>)
        ensures
            r@ == server_bytes(self@),
    {
        let mut buff: Vec<u8> = Vec::new();
        let mut a = string_to_bytes(&self.ip);
        buff.append(&mut a);
        let mut b = u16_to_bytes(&self.port);
        buff.append(&mut b);
        let mut c = string_to_bytes(&self.indentification);
        buff.append(&mut c);
        let mut d = opt_string_to_bytes(&self.server_cert);
        buff.append(&mut d);
        assert(buff@ =~= server_bytes(self@));
        buff
    }

    /// Reads a location from the front of `buffer`; see [`server_from`].
    pub fn from_bytes(buffer: &mut Vec<u8>) -> (r: Option<Self>)
        ensures
            (match r {
                Some(l) => Some(l@),
                None => None,
            }, final(buffer)@) == server_from(old(buffer)@),
    {
        let ip = string_from_bytes(buffer)?;
        let port = u16_from_bytes(buffer)?;
        let indentification = string_from_bytes(buffer)?;
        let server_cert = opt_string_from_bytes(buffer)?;
        Some(ServerLocation { ip, port, indentification, server_cert })
    }
}

/// How many numbers `k` bytes can hold.
pub open spec fn byte_span(k: nat) -> nat
    decreases k,
{
    if k == 0 {
        1
    } else {
        256 * byte_span((k - 1) as nat)
    }
}

/// Reading the bytes of a number back gives the number, when it fits.
proof fn lemma_le_roundtrip(n: nat, k: nat)
    requires
        n < byte_span(k),
    ensures
        le_bytes(n, k).len() == k,
        le_value(le_bytes(n, k)) == n,
    decreases k,
{
    if k > 0 {
        let p = byte_span((k - 1) as nat);
        assert(n / 256 < p) by (nonlinear_arith)
            requires
                n < 256 * p,
        ;
        lemma_le_roundtrip(n / 256, (k - 1) as nat);
        let b = le_bytes(n, k);
        assert(b.drop_first() =~= le_bytes(n / 256, (k - 1) as nat));
        assert(b[0] as nat == n % 256);
        assert(n == n % 256 + 256 * (n / 256)) by (nonlinear_arith);
    }
}

/// A text that reads back as it was written: ASCII, and short enough for
/// its length to fit in eight bytes.
pub open spec fn round_trip_text(s: Seq<char>) -> bool {
    &&& vstd::utf8::is_ascii_chars(s)
    &&& s.len() < 0x1_0000_0000_0000_0000
}

/// Reading a text from its bytes, followed by anything, gives the text and
/// leaves what followed.
proof fn lemma_string_roundtrip(t: Seq<char>, rest: Seq<u8>)
    requires
        round_trip_text(t),
    ensures
        string_from(string_bytes(t) + rest) == (Some(t), rest),
{
    broadcast use vstd::utf8::is_ascii_chars_encode_utf8, vstd::utf8::is_ascii_chars_nat_bound;

    let enc = encode_utf8(t);
    assert(byte_span(8) == 0x1_0000_0000_0000_0000) by {
        reveal_with_fuel(byte_span, 9);
    }
    lemma_le_roundtrip(enc.len(), 8);
    let buf = string_bytes(t) + rest;
    assert(buf.take(8) =~= le_bytes(enc.len(), 8));
    assert(buf.skip(8) =~= enc + rest);
    assert((enc + rest).take(enc.len() as int) =~= enc);
    assert((enc + rest).skip(enc.len() as int) =~= rest);
    let chars = enc.map_values(|b: u8| b as char);
    assert(chars =~= t) by {
        assert forall|i: int| 0 <= i < t.len() implies #[trigger] chars[i] == t[i] by {
            assert(enc[i] == t[i] as u8);
            assert((t[i] as nat) < 128);
        }
    }
}

/// Reading a `u16` from its bytes, followed by anything, gives it back and
/// leaves what followed.
proof fn lemma_u16_roundtrip(v: u16, rest: Seq<u8>)
    ensures
        u16_from(u16_bytes(v) + rest) == (Some(v), rest),
{
    reveal_with_fuel(le_bytes, 3);
    let buf = u16_bytes(v) + rest;
    let p = v as nat;
    assert(buf[0] as nat == p % 256);
    assert(buf[1] as nat == (p / 256) % 256);
    assert(p % 256 + 256 * ((p / 256) % 256) == p) by (nonlinear_arith)
        requires
            p < 65536,
    ;
    assert(buf.skip(2) =~= rest);
}

/// Reading an optional text from its bytes, followed by anything, gives it
/// back and leaves what followed.
proof fn lemma_opt_string_roundtrip(o: Option<Seq<char>>, rest: Seq<u8>)
    requires
        o matches Some(t) ==> round_trip_text(t),
    ensures
        opt_string_from(opt_string_bytes(o) + rest) == (Some(o), rest),
{
    let buf = opt_string_bytes(o) + rest;
    match o {
        None => {
            assert(buf[0] == 0u8);
            assert(buf.skip(1) =~= rest);
        },
        Some(t) => {
            assert(buf[0] == 1u8);
            assert(buf.skip(1) =~= string_bytes(t) + rest);
            lemma_string_roundtrip(t, rest);
        },
    }
}

/// Reading a server location from its bytes, followed by anything, gives
/// the location back and leaves what followed, when its texts are ASCII.
pub proof fn law_server_location_round_trip(v: ServerLocationView, rest: Seq<u8>)
    requires
        round_trip_text(v.ip),
        round_trip_text(v.indentification),
        v.server_cert matches Some(c) ==> round_trip_text(c),
    ensures
        server_from(server_bytes(v) + rest) == (Some(v), rest),
{
    let tail_cert = opt_string_bytes(v.server_cert) + rest;
    let tail_ident = string_bytes(v.indentification) + tail_cert;
    let tail_port = u16_bytes(v.port) + tail_ident;
    assert(server_bytes(v) + rest =~= string_bytes(v.ip) + tail_port);
    lemma_string_roundtrip(v.ip, tail_port);
    lemma_u16_roundtrip(v.port, tail_ident);
    lemma_string_roundtrip(v.indentification, tail_cert);
    lemma_opt_string_roundtrip(v.server_cert, rest);
}

} // verus!
