//! The handshake before an upload: what the endpoint answered, and the
//! transfer handle that comes of it.

use crate::chunk::{chunk_count, ChunkSource, ChunkSourceView};
use crate::error::UploadError;
use crate::line::UploadLine;
use vstd::prelude::*;

verus! {

/// What the endpoint answered to the request to upload a file.
#[derive(Debug)]
pub enum Reply {
    /// The endpoint takes the file, under this identifier, and may dictate
    /// the size of the parts it wants.
    Accepted { upload_id: String, part_size: Option<u32> },
    /// The session is no longer valid.
    AuthExpired,
    /// The endpoint refuses the file.
    Rejected,
}

/// The code with which a line answers a session that is no longer valid.
pub const SESSION_EXPIRED: i64 = -101;

/// What a line answered when it was asked for a place to put a file, as far
/// as the handshake reads it. Any of it may be missing from the answer.
#[derive(Debug)]
pub struct Placement {
    /// The status code of the answer.
    pub code: Option<i64>,
    /// The token that authorises sending the parts.
    pub auth: Option<String>,
    /// The host that takes the parts.
    pub endpoint: Option<String>,
    /// The address of the file on that host.
    pub upos_uri: Option<String>,
    /// The part size the endpoint dictates, in bytes.
    pub chunk_size: Option<u64>,
}

/// What a line's answer grants: the dictated part size, if it dictates one.
/// The code of an expired session gives `AuthExpired`. An answer that lacks
/// the token, the host or the address, or that dictates parts too large to
/// count in 32 bits, is a refusal.
pub open spec fn granted(placement: Placement) -> Result<Option<u32>, UploadError> {
    if placement.code == Some(SESSION_EXPIRED) {
        Err(UploadError::AuthExpired)
    } else if placement.auth is None || placement.endpoint is None || placement.upos_uri is None {
        Err(UploadError::EndpointRejected)
    } else {
        match placement.chunk_size {
            None => Ok(None),
            Some(size) => if size > u32::MAX {
                Err(UploadError::EndpointRejected)
            } else {
                Ok(Some(size as u32))
            },
        }
    }
}

/// What the endpoint answered, all told: what its first answer grants, and,
/// where it grants a place, whether opening the upload there gave an
/// identifier.
pub open spec fn reply_to(placement: Placement, upload_id: Option<String>) -> Reply {
    match granted(placement) {
        Err(error) => if error == UploadError::AuthExpired {
            Reply::AuthExpired
        } else {
            Reply::Rejected
        },
        Ok(part_size) => match upload_id {
            Some(id) => Reply::Accepted { upload_id: id, part_size },
            None => Reply::Rejected,
        },
    }
}

/// What a line's answer grants, or why it grants nothing.
pub fn part_size_of(placement: &Placement) -> (part_size: Result<Option<u32>, UploadError>)
    ensures
        part_size == granted(*placement),
{
    match placement.code {
        Some(code) => {
            if code == SESSION_EXPIRED {
                return Err(UploadError::AuthExpired);
            }
        },
        None => {},
    }
    if placement.auth.is_none() || placement.endpoint.is_none() || placement.upos_uri.is_none() {
        return Err(UploadError::EndpointRejected);
    }
    match placement.chunk_size {
        None => Ok(None),
        Some(size) => {
            if size > 0xffff_ffff {
                Err(UploadError::EndpointRejected)
            } else {
                Ok(Some(size as u32))
            }
        },
    }
}

/// What the endpoint answered, all told. `upload_id` is what opening the
/// upload gave; it is not looked at where the first answer grants nothing.
pub fn reply_of(placement: &Placement, upload_id: Option<String>) -> (reply: Reply)
    ensures
        reply == reply_to(*placement, upload_id),
{
    match part_size_of(placement) {
        Err(UploadError::AuthExpired) => Reply::AuthExpired,
        Err(_) => Reply::Rejected,
        Ok(part_size) => match upload_id {
            Some(id) => Reply::Accepted { upload_id: id, part_size },
            None => Reply::Rejected,
        },
    }
}

/// The part size both sides go by: the one the endpoint dictates, else the
/// one the file was cut at. A dictated size of zero cuts nothing, so no size
/// is agreed.
pub open spec fn agreed_part_size(requested: nat, dictated: Option<u32>) -> Option<nat> {
    match dictated {
        None => Some(requested),
        Some(size) => if size == 0 {
            None
        } else {
            Some(size as nat)
        },
    }
}

/// What a [`TransferHandle`] stands for.
pub struct TransferHandleView {
    /// The endpoint.
    pub line: UploadLine,
    /// The identifier under which the endpoint collects the parts.
    pub upload_id: Seq<char>,
    /// Length of the file in bytes.
    pub total: nat,
    /// Length of every part but the last.
    pub part_size: nat,
}

impl TransferHandleView {
    /// Number of parts the endpoint expects.
    pub open spec fn part_count(self) -> nat {
        chunk_count(self.total, self.part_size)
    }
}

/// The outcome of a successful negotiation. It fixes the part size and the
/// number of parts for the rest of the upload.
#[derive(Debug)]
pub struct TransferHandle {
    line: UploadLine,
    upload_id: String,
    parts: ChunkSource,
}

impl View for TransferHandle {
    type V = TransferHandleView;

    closed spec fn view(&self) -> TransferHandleView {
        TransferHandleView {
            line: self.line,
            upload_id: self.upload_id@,
            total: self.parts@.total,
            part_size: self.parts@.size,
        }
    }
}

impl TransferHandle {
    /// The invariant of a handle: its part size is positive, and its parts
    /// are counted from the first, none of them handed out yet.
    pub closed spec fn wf(&self) -> bool {
        self.parts.wf() && self.parts@.next == 0
    }

    /// The endpoint the file goes to.
    pub fn line(&self) -> (line: UploadLine)
        ensures
            line == self@.line,
    {
        self.line
    }

    /// The identifier under which the endpoint collects the parts.
    pub fn upload_id(&self) -> (id: &str)
        ensures
            id@ == self@.upload_id,
    {
        self.upload_id.as_str()
    }

    /// Length of every part but the last.
    pub fn part_size(&self) -> (size: u32)
        ensures
            size == self@.part_size,
    {
        self.parts.chunk_size()
    }

    /// Number of parts the endpoint expects.
    pub fn part_count(&self) -> (count: u64)
        requires
            self.wf(),
        ensures
            count == self@.part_count(),
    {
        self.parts.chunk_count()
    }

    /// The file cut into the parts that were agreed on, positioned before
    /// the first of them.
    pub fn source(&self) -> (source: ChunkSource)
        requires
            self.wf(),
        ensures
            source.wf(),
            source@ == (ChunkSourceView { total: self@.total, size: self@.part_size, next: 0 }),
    {
        self.parts.rewound()
    }
}

/// Turns the endpoint's answer into a transfer handle. An expired session
/// gives `AuthExpired`; a refusal, or a dictated part size of zero, gives
/// `EndpointRejected`. Otherwise the handle is for the same file, cut at the
/// part size the endpoint dictated or, where it dictated none, at the chunk
/// size of `source`. The source itself is only read: no chunk is taken
/// from it.
pub fn negotiate(line: UploadLine, source: &ChunkSource, reply: Reply) -> (handle: Result<
    TransferHandle,
    UploadError,
>)
    requires
        source.wf(),
    ensures
        match reply {
            Reply::AuthExpired => handle matches Err(error) && error == UploadError::AuthExpired,
            Reply::Rejected => handle matches Err(error) && error == UploadError::EndpointRejected,
            Reply::Accepted { upload_id, part_size } => match agreed_part_size(
                source@.size,
                part_size,
            ) {
                None => handle matches Err(error) && error == UploadError::EndpointRejected,
                Some(size) => handle matches Ok(agreed) && agreed.wf() && agreed@ == (
                TransferHandleView {
                    line,
                    upload_id: upload_id@,
                    total: source@.total,
                    part_size: size,
                }),
            },
        },
{
    match reply {
        Reply::AuthExpired => Err(UploadError::AuthExpired),
        Reply::Rejected => Err(UploadError::EndpointRejected),
        Reply::Accepted { upload_id, part_size } => {
            let size: u32 = match part_size {
                Some(dictated) => dictated,
                None => source.chunk_size(),
            };
            match ChunkSource::new(source.total_size(), size) {
                Some(parts) => Ok(TransferHandle { line, upload_id, parts }),
                None => Err(UploadError::EndpointRejected),
            }
        },
    }
}

} // verus!
