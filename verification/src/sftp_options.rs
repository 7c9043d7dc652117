//! Options of an sftp connection, and the limits of read and write requests
//! that follow from them and from what the server announces.

use std::time::Duration;

use vstd::prelude::*;

verus! {

/// The duration of `us` microseconds.
pub uninterp spec fn duration_from_micros(us: u64) -> Duration;

/// `Duration::from_micros`: the duration of `us` microseconds, which depends
/// on `us` alone.
#[verifier::external_body]
fn micros(us: u64) -> (r: Duration)
    ensures
        r == duration_from_micros(us),
{
    Duration::from_micros(us)
}

/// Options when creating an sftp connection.
#[derive(Debug, Copy, Clone)]
pub struct SftpOptions {
    flush_interval: Option<Duration>,
    max_read_len: Option<u32>,
    max_write_len: Option<u32>,
    max_pending_requests: Option<u16>,
}

/// The options set, as plain values.
pub struct SftpOptionsView {
    pub flush_interval: Option<Duration>,
    pub max_read_len: Option<u32>,
    pub max_write_len: Option<u32>,
    pub max_pending_requests: Option<u16>,
}

impl View for SftpOptions {
    type V = SftpOptionsView;

    closed spec fn view(&self) -> SftpOptionsView {
        SftpOptionsView {
            flush_interval: self.flush_interval,
            max_read_len: self.max_read_len,
            max_write_len: self.max_write_len,
            max_pending_requests: self.max_pending_requests,
        }
    }
}

impl SftpOptions {
    /// The lengths set are never zero.
    pub closed spec fn wf(&self) -> bool {
        &&& (self.max_read_len matches Some(n) ==> n != 0)
        &&& (self.max_write_len matches Some(n) ==> n != 0)
        &&& (self.max_pending_requests matches Some(n) ==> n != 0)
    }

    /// Options with nothing set.
    pub fn new() -> (r: Self)
        ensures
            r@ == (SftpOptionsView {
                flush_interval: None,
                max_read_len: None,
                max_write_len: None,
                max_pending_requests: None,
            }),
            r.wf(),
    {
        SftpOptions {
            flush_interval: None,
            max_read_len: None,
            max_write_len: None,
            max_pending_requests: None,
        }
    }

    /// Set the longest time a request stays in the write buffer before it is
    /// sent (0.5 ms when not set).
    #[must_use]
    pub fn flush_interval(self, flush_interval: Duration) -> (r: Self)
        ensures
            r@ == (SftpOptionsView { flush_interval: Some(flush_interval), ..self@ }),
            self.wf() ==> r.wf(),
    {
        SftpOptions { flush_interval: Some(flush_interval), ..self }
    }

    /// The flush interval: the one set, else 500 microseconds.
    pub fn get_flush_interval(&self) -> (r: Duration)
        ensures
            r == match self@.flush_interval {
                Some(d) => d,
                None => duration_from_micros(500),
            },
    {
        match self.flush_interval {
            Some(d) => d,
            None => micros(500),
        }
    }

    /// Set the largest read request; it can lower the length that the server
    /// allows, never raise it.
    #[must_use]
    pub fn max_read_len(self, max_read_len: u32) -> (r: Self)
        requires
            max_read_len != 0,
        ensures
            r@ == (SftpOptionsView { max_read_len: Some(max_read_len), ..self@ }),
            self.wf() ==> r.wf(),
    {
        SftpOptions { max_read_len: Some(max_read_len), ..self }
    }

    /// The largest read request set, if any.
    pub fn get_max_read_len(&self) -> (r: Option<u32>)
        ensures
            r == self@.max_read_len,
    {
        self.max_read_len
    }

    /// Set the largest write request; it can lower the length that the
    /// server allows, never raise it.
    #[must_use]
    pub fn max_write_len(self, max_write_len: u32) -> (r: Self)
        requires
            max_write_len != 0,
        ensures
            r@ == (SftpOptionsView { max_write_len: Some(max_write_len), ..self@ }),
            self.wf() ==> r.wf(),
    {
        SftpOptions { max_write_len: Some(max_write_len), ..self }
    }

    /// The largest write request set, if any.
    pub fn get_max_write_len(&self) -> (r: Option<u32>)
        ensures
            r == self@.max_write_len,
    {
        self.max_write_len
    }

    /// Set how many requests may wait in the write buffer before it is
    /// flushed without waiting for the flush interval.
    #[must_use]
    pub fn max_pending_requests(self, max_pending_requests: u16) -> (r: Self)
        requires
            max_pending_requests != 0,
        ensures
            r@ == (SftpOptionsView { max_pending_requests: Some(max_pending_requests), ..self@ }),
            self.wf() ==> r.wf(),
    {
        SftpOptions { max_pending_requests: Some(max_pending_requests), ..self }
    }

    /// The number of pending requests that triggers a flush: the one set,
    /// else 100.
    pub fn get_max_pending_requests(&self) -> (r: u16)
        ensures
            r == match self@.max_pending_requests {
                Some(n) => n,
                None => 100u16,
            },
    {
        match self.max_pending_requests {
            Some(n) => n,
            None => 100,
        }
    }
}

impl Default for SftpOptions {
    fn default() -> (r: Self)
        ensures
            r@ == (SftpOptionsView {
                flush_interval: None,
                max_read_len: None,
                max_write_len: None,
                max_pending_requests: None,
            }),
    {
        SftpOptions::new()
    }
}

/// The limits that the server announces in reply to a limits request.
#[derive(Debug, Clone, Copy)]
pub struct ServerLimits {
    pub packet_len: u64,
    pub read_len: u64,
    pub write_len: u64,
}

/// The longest read and write requests of a connection.
#[derive(Debug, Clone, Copy, PartialEq, Eq, Structural)]
pub struct Limits {
    pub read_len: u32,
    pub write_len: u32,
}

/// `OPENSSH_PORTABLE_DEFAULT_DOWNLOAD_BUFLEN` of openssh-sftp-client-lowlevel,
/// the download buffer of openssh-portable: 20480 bytes.
#[verifier::external_body]
fn default_download_buflen() -> (r: u64)
    ensures
        r == 20480,
{
    openssh_sftp_client_lowlevel::OPENSSH_PORTABLE_DEFAULT_DOWNLOAD_BUFLEN as u64
}

/// `OPENSSH_PORTABLE_DEFAULT_UPLOAD_BUFLEN` of openssh-sftp-client-lowlevel,
/// the upload buffer of openssh-portable: 20480 bytes.
#[verifier::external_body]
fn default_upload_buflen() -> (r: u64)
    ensures
        r == 20480,
{
    openssh_sftp_client_lowlevel::OPENSSH_PORTABLE_DEFAULT_UPLOAD_BUFLEN as u64
}

/// The largest packet: sftp accepts packets of up to `u32::MAX` bytes, of
/// which the header takes at least 9.
pub open spec fn default_max_packet_len() -> u32 {
    (0xffff_ffffu32 - 9) as u32
}

/// The packet length that the limits `server` announce, or the largest one
/// when the server announces none or one beyond 32 bits.
pub open spec fn packet_len_of(server: Option<ServerLimits>) -> u32 {
    match server {
        Some(l) => if l.packet_len <= 0xffff_ffff {
            l.packet_len as u32
        } else {
            default_max_packet_len()
        },
        None => default_max_packet_len(),
    }
}

/// A length that the server announces, with 0 meaning the default `dflt`,
/// cut down to 32 bits: a length beyond 32 bits becomes the packet length
/// less 300 bytes of header and handle.
pub open spec fn announced_len(len: Option<u64>, dflt: u64, packet_len: u32) -> u32 {
    let l = match len {
        Some(v) => if v == 0 {
            dflt
        } else {
            v
        },
        None => dflt,
    };
    if l <= 0xffff_ffff {
        l as u32
    } else {
        (packet_len - 300) as u32
    }
}

/// The smaller of the length allowed and the one that the options ask for.
pub open spec fn capped(len: u32, option: Option<u32>) -> u32 {
    match option {
        Some(v) => if v < len {
            v
        } else {
            len
        },
        None => len,
    }
}

/// The limits of a connection whose server announced `server` (`None` when
/// it does not support the limits extension), under the options `options`.
pub open spec fn limits_spec(server: Option<ServerLimits>, options: SftpOptionsView) -> Limits {
    let packet_len = packet_len_of(server);
    Limits {
        read_len: capped(
            announced_len(
                match server {
                    Some(l) => Some(l.read_len),
                    None => None,
                },
                20480,
                packet_len,
            ),
            options.max_read_len,
        ),
        write_len: capped(
            announced_len(
                match server {
                    Some(l) => Some(l.write_len),
                    None => None,
                },
                20480,
                packet_len,
            ),
            options.max_write_len,
        ),
    }
}

/// The limits of a connection whose server announced `server` (`None` when
/// it does not support the limits extension), under the options `options`.
/// The packet length must leave room for 300 bytes of header and handle.
pub fn compute_limits(server: Option<ServerLimits>, options: &SftpOptions) -> (r: Limits)
    requires
        packet_len_of(server) >= 300,
    ensures
        r == limits_spec(server, options@),
{
    let default_max_packet_len: u32 = 0xffff_ffff - 9;
    let dl = default_download_buflen();
    let ul = default_upload_buflen();
    let (read_len, write_len, packet_len): (u64, u64, u32) = match server {
        Some(l) => {
            let read_len = if l.read_len == 0 {
                dl
            } else {
                l.read_len
            };
            let write_len = if l.write_len == 0 {
                ul
            } else {
                l.write_len
            };
            let packet_len: u32 = if l.packet_len <= 0xffff_ffff {
                l.packet_len as u32
            } else {
                default_max_packet_len
            };
            (read_len, write_len, packet_len)
        },
        None => (dl, ul, default_max_packet_len),
    };
    let read_len: u32 = if read_len <= 0xffff_ffff {
        read_len as u32
    } else {
        packet_len - 300
    };
    let read_len: u32 = match options.get_max_read_len() {
        Some(v) => if v < read_len {
            v
        } else {
            read_len
        },
        None => read_len,
    };
    let write_len: u32 = if write_len <= 0xffff_ffff {
        write_len as u32
    } else {
        packet_len - 300
    };
    let write_len: u32 = match options.get_max_write_len() {
        Some(v) => if v < write_len {
            v
        } else {
            write_len
        },
        None => write_len,
    };
    Limits { read_len, write_len }
}

/// The options can lower the request lengths, never raise them: with a
/// largest read (write) length set, the limit is at most that length, and it
/// never passes what the server allows.
pub proof fn lemma_limits_capped(server: Option<ServerLimits>, options: SftpOptionsView)
    ensures
        options.max_read_len matches Some(m) ==> limits_spec(server, options).read_len <= m,
        options.max_write_len matches Some(m) ==> limits_spec(server, options).write_len <= m,
        limits_spec(server, options).read_len <= limits_spec(
            server,
            SftpOptionsView { max_read_len: None, ..options },
        ).read_len,
        limits_spec(server, options).write_len <= limits_spec(
            server,
            SftpOptionsView { max_write_len: None, ..options },
        ).write_len,
{
}

/// Without the limits extension the lengths are openssh-portable's
/// defaults, 20480 bytes, unless the options ask for less.
pub proof fn lemma_limits_default(options: SftpOptionsView)
    ensures
        limits_spec(None, options).read_len == capped(20480, options.max_read_len),
        limits_spec(None, options).write_len == capped(20480, options.max_write_len),
{
}

} // verus!
