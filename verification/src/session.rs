use vstd::prelude::*;
use vstd::arithmetic::div_mod::lemma_fundamental_div_mod_converse;
use crate::apdu::{
    BLOCK_SIZE, spec_select_file_apdu, select_file_apdu, spec_read_binary_apdu, read_binary_apdu,
    spec_response_ok, spec_payload, spec_response_error, split_response, spec_status,
    SUCCESS_STATUS, spec_select_aid_apdu, select_aid_apdu, PERSONAL_FILE, RESIDENCE_FILE,
    DOCUMENT_FILE, PHOTO_FILE,
};
use crate::detect::CardVariant;
use crate::error::IdError;
use crate::record::{PersonalId, spec_merge_value};
use crate::tags::PersonalIdTag;
use crate::tlv::{spec_le16, spec_parse_tlv};

verus! {

/// The state of one whole-file read, as the contracts speak of it.
pub enum FileReadStateView {
    /// The SELECT-by-file-id command is out; its response is awaited.
    SelectFile,
    /// The header read is out: the first bytes of the file, which carry
    /// the file's total length.
    ReadHeader,
    /// The block-read loop: `buffer` holds what arrived so far, the next
    /// READ BINARY starts at `offset`, and `remaining` bytes are owed.
    ReadBody { offset: int, remaining: int, buffer: Seq<u8> },
    /// The whole file is assembled.
    Done { data: Seq<u8> },
    /// A step failed; nothing more will be asked.
    Failed { error: IdError },
}

/// One whole-file read, as the contracts speak of it.
pub struct FileReadSessionView {
    pub variant: CardVariant,
    pub file_id: u16,
    pub strip_header: bool,
    pub state: FileReadStateView,
}

enum FileReadState {
    SelectFile,
    ReadHeader,
    ReadBody { offset: u32, remaining: u32, buffer: Vec<u8> },
    Done { data: Vec<u8> },
    Failed { error: IdError },
}

/// The read of one whole on-card file, driven step by step: the caller
/// transmits the command that [`FileReadSession::request`] names and
/// hands the card's response to [`FileReadSession::advance`], until the
/// session is done or failed. The file's total length is only known
/// after the header read; the block-read loop then runs until the
/// remaining-length counter reaches exactly zero, so a response shorter
/// than requested merely causes another round.
pub struct FileReadSession {
    variant: CardVariant,
    file_id: u16,
    strip_header: bool,
    state: FileReadState,
}

/// How many header bytes each chip family reads first: Apollo reads 6
/// and finds the length at bytes 4..6; Gemalto reads 4 and finds it at
/// bytes 2..4.
pub open spec fn spec_header_len(variant: CardVariant) -> u32 {
    match variant {
        CardVariant::Apollo => 6,
        CardVariant::Gemalto => 4,
    }
}

/// The failed session that a bad response leaves behind.
pub open spec fn spec_file_session_fail(
    pre: FileReadSessionView,
    e: IdError,
) -> FileReadSessionView {
    FileReadSessionView { state: FileReadStateView::Failed { error: e }, ..pre }
}

/// The finished session: Apollo's header skip already happened through
/// the read offset, while Gemalto discards the first 4 bytes of the
/// assembled buffer when the header is to be stripped.
pub open spec fn spec_file_session_finish(
    pre: FileReadSessionView,
    buffer: Seq<u8>,
) -> FileReadStateView {
    if pre.variant is Gemalto && pre.strip_header {
        FileReadStateView::Done { data: buffer.skip(4) }
    } else {
        FileReadStateView::Done { data: buffer }
    }
}

/// The body-loop state, or the finished session once nothing remains.
pub open spec fn spec_file_session_body(
    pre: FileReadSessionView,
    offset: int,
    remaining: int,
    buffer: Seq<u8>,
) -> FileReadStateView {
    if remaining == 0 {
        spec_file_session_finish(pre, buffer)
    } else {
        FileReadStateView::ReadBody { offset, remaining, buffer }
    }
}

/// One step of the whole-file read: what the session becomes when the
/// card answers `resp` in state `pre`. Any response without the success
/// status word fails the step with that status; a response whose shape
/// the step cannot use fails it as malformed.
pub open spec fn spec_file_session_advance(
    pre: FileReadSessionView,
    resp: Seq<u8>,
) -> FileReadSessionView
    recommends
        !(pre.state is Done),
        !(pre.state is Failed),
{
    if !spec_response_ok(resp) {
        spec_file_session_fail(pre, spec_response_error(resp))
    } else {
        let p = spec_payload(resp);
        match pre.state {
            FileReadStateView::SelectFile => {
                if pre.variant is Apollo && p.len() < 2 {
                    // Apollo strips two framing bytes off the select
                    // payload, so a shorter payload is malformed.
                    spec_file_session_fail(pre, IdError::MalformedResponse)
                } else {
                    FileReadSessionView { state: FileReadStateView::ReadHeader, ..pre }
                }
            },
            FileReadStateView::ReadHeader => {
                match pre.variant {
                    CardVariant::Apollo => {
                        if p.len() < 6 {
                            spec_file_session_fail(pre, IdError::MalformedResponse)
                        } else {
                            let total = spec_le16(p[4], p[5]) as int;
                            if pre.strip_header {
                                if total < 4 {
                                    spec_file_session_fail(pre, IdError::MalformedResponse)
                                } else {
                                    FileReadSessionView {
                                        state: spec_file_session_body(
                                            pre,
                                            10,
                                            total - 4,
                                            Seq::empty(),
                                        ),
                                        ..pre
                                    }
                                }
                            } else {
                                FileReadSessionView {
                                    state: spec_file_session_body(pre, 6, total, Seq::empty()),
                                    ..pre
                                }
                            }
                        }
                    },
                    CardVariant::Gemalto => {
                        if p.len() < 4 {
                            spec_file_session_fail(pre, IdError::MalformedResponse)
                        } else {
                            let total = spec_le16(p[2], p[3]) as int;
                            if p.len() + total > u32::MAX {
                                spec_file_session_fail(pre, IdError::MalformedResponse)
                            } else {
                                // The header bytes themselves go into the
                                // output buffer.
                                FileReadSessionView {
                                    state: spec_file_session_body(pre, p.len() as int, total, p),
                                    ..pre
                                }
                            }
                        }
                    },
                }
            },
            FileReadStateView::ReadBody { offset, remaining, buffer } => {
                if p.len() > remaining {
                    spec_file_session_fail(pre, IdError::MalformedResponse)
                } else {
                    FileReadSessionView {
                        state: spec_file_session_body(
                            pre,
                            offset + p.len(),
                            remaining - p.len(),
                            buffer + p,
                        ),
                        ..pre
                    }
                }
            },
            FileReadStateView::Done { .. } => pre,
            FileReadStateView::Failed { .. } => pre,
        }
    }
}

impl View for FileReadSession {
    type V = FileReadSessionView;

    closed spec fn view(&self) -> FileReadSessionView {
        FileReadSessionView {
            variant: self.variant,
            file_id: self.file_id,
            strip_header: self.strip_header,
            state: match self.state {
                FileReadState::SelectFile => FileReadStateView::SelectFile,
                FileReadState::ReadHeader => FileReadStateView::ReadHeader,
                FileReadState::ReadBody { offset, remaining, buffer } => {
                    FileReadStateView::ReadBody {
                        offset: offset as int,
                        remaining: remaining as int,
                        buffer: buffer@,
                    }
                },
                FileReadState::Done { data } => FileReadStateView::Done { data: data@ },
                FileReadState::Failed { error } => FileReadStateView::Failed { error },
            },
        }
    }
}

impl FileReadSession {
    /// Well-formedness: the body loop never owes zero bytes (it would
    /// have finished), never overruns the 32-bit offset, and a Gemalto
    /// buffer to be stripped already holds its 4 header bytes.
    pub closed spec fn wf(self) -> bool {
        match self.state {
            FileReadState::ReadBody { offset, remaining, buffer } => {
                remaining > 0 && offset + remaining <= u32::MAX && (self.variant is Gemalto
                    ==> buffer@.len() >= 4)
            },
            _ => true,
        }
    }

    /// Starts the read of one file: first the file is selected, then the
    /// header is read, then the body in blocks.
    pub fn new(variant: CardVariant, file_id: u16, strip_header: bool) -> (s: FileReadSession)
        ensures
            s.wf(),
            s@ == (FileReadSessionView {
                variant,
                file_id,
                strip_header,
                state: FileReadStateView::SelectFile,
            }),
    {
        FileReadSession { variant, file_id, strip_header, state: FileReadState::SelectFile }
    }

    /// The command to transmit next, if the session still runs: the
    /// SELECT for the file, the header read, or the next block read,
    /// whose length is the remaining count clamped to [`BLOCK_SIZE`].
    pub fn request(&self) -> (r: Option<Vec<u8>>)
        requires
            self.wf(),
        ensures
            self@.state is SelectFile ==> (r matches Some(a) && a@ == spec_select_file_apdu(
                self@.file_id,
                4,
            )),
            self@.state is ReadHeader ==> (r matches Some(a) && a@ == spec_read_binary_apdu(
                0,
                spec_header_len(self@.variant),
            )),
            self@.state matches FileReadStateView::ReadBody { offset, remaining, .. } ==> (r
                matches Some(a) && a@ == spec_read_binary_apdu(offset as u32, remaining as u32)),
            self@.state is Done ==> r is None,
            self@.state is Failed ==> r is None,
    {
        match &self.state {
            FileReadState::SelectFile => Some(select_file_apdu(self.file_id, 4)),
            FileReadState::ReadHeader => {
                let len: u32 = match self.variant {
                    CardVariant::Apollo => 6,
                    CardVariant::Gemalto => 4,
                };
                Some(read_binary_apdu(0, len))
            },
            FileReadState::ReadBody { offset, remaining, .. } => {
                Some(read_binary_apdu(*offset, *remaining))
            },
            FileReadState::Done { .. } => None,
            FileReadState::Failed { .. } => None,
        }
    }

    /// The session has assembled the whole file.
    pub fn is_done(&self) -> (r: bool)
        ensures
            r <==> self@.state is Done,
    {
        match &self.state {
            FileReadState::Done { .. } => true,
            _ => false,
        }
    }

    /// The body loop's position: the next read offset and the bytes
    /// still owed, while the body is being read.
    pub fn body_progress(&self) -> (r: Option<(u32, u32)>)
        ensures
            r is Some <==> self@.state is ReadBody,
            self@.state matches FileReadStateView::ReadBody { offset, remaining, .. } ==> (r
                matches Some(pr) && pr.0 == offset && pr.1 == remaining),
    {
        match &self.state {
            FileReadState::ReadBody { offset, remaining, .. } => Some((*offset, *remaining)),
            _ => None,
        }
    }

    /// The assembled file bytes of a finished session.
    pub fn take_data(self) -> (r: Vec<u8>)
        requires
            self@.state is Done,
        ensures
            self@.state matches FileReadStateView::Done { data } && r@ == data,
    {
        match self.state {
            FileReadState::Done { data } => data,
            _ => {
                proof {
                    assert(false);
                }
                Vec::new()
            },
        }
    }

    /// Feeds the card's response to the step that awaited it. The
    /// session moves exactly as [`spec_file_session_advance`] says; a
    /// failed step reports its error and parks the session in the failed
    /// state.
    pub fn advance(&mut self, resp: &[u8]) -> (r: Result<(), IdError>)
        requires
            old(self).wf(),
            !(old(self)@.state is Done),
            !(old(self)@.state is Failed),
        ensures
            final(self).wf(),
            final(self)@ == spec_file_session_advance(old(self)@, resp@),
            r is Err <==> final(self)@.state is Failed,
            r matches Err(e) ==> final(self)@.state == (FileReadStateView::Failed { error: e }),
    {
        let payload = match split_response(resp) {
            Ok(p) => p,
            Err(e) => {
                self.state = FileReadState::Failed { error: e };
                return Err(e);
            },
        };
        let is_apollo = match self.variant {
            CardVariant::Apollo => true,
            CardVariant::Gemalto => false,
        };
        let mut next = FileReadState::SelectFile;
        core::mem::swap(&mut next, &mut self.state);
        match next {
            FileReadState::SelectFile => {
                if is_apollo && payload.len() < 2 {
                    self.state = FileReadState::Failed { error: IdError::MalformedResponse };
                    return Err(IdError::MalformedResponse);
                }
                self.state = FileReadState::ReadHeader;
                Ok(())
            },
            FileReadState::ReadHeader => {
                if is_apollo {
                    if payload.len() < 6 {
                        self.state = FileReadState::Failed { error: IdError::MalformedResponse };
                        return Err(IdError::MalformedResponse);
                    }
                    let total: u32 = crate::tlv::le16(payload[4], payload[5]) as u32;
                    if self.strip_header {
                        if total < 4 {
                            self.state = FileReadState::Failed {
                                error: IdError::MalformedResponse,
                            };
                            return Err(IdError::MalformedResponse);
                        }
                        self.finish_or_body(10, total - 4, Vec::new());
                    } else {
                        self.finish_or_body(6, total, Vec::new());
                    }
                    Ok(())
                } else {
                    if payload.len() < 4 {
                        self.state = FileReadState::Failed { error: IdError::MalformedResponse };
                        return Err(IdError::MalformedResponse);
                    }
                    let total: u32 = crate::tlv::le16(payload[2], payload[3]) as u32;
                    if payload.len() > (u32::MAX - total) as usize {
                        self.state = FileReadState::Failed { error: IdError::MalformedResponse };
                        return Err(IdError::MalformedResponse);
                    }
                    let offset: u32 = payload.len() as u32;
                    self.finish_or_body(offset, total, payload);
                    Ok(())
                }
            },
            FileReadState::ReadBody { offset, remaining, mut buffer } => {
                if payload.len() > remaining as usize {
                    self.state = FileReadState::Failed { error: IdError::MalformedResponse };
                    return Err(IdError::MalformedResponse);
                }
                let got: u32 = payload.len() as u32;
                let mut payload = payload;
                buffer.append(&mut payload);
                self.finish_or_body(offset + got, remaining - got, buffer);
                Ok(())
            },
            FileReadState::Done { .. } => {
                proof {
                    assert(false);
                }
                Err(IdError::MalformedResponse)
            },
            FileReadState::Failed { .. } => {
                proof {
                    assert(false);
                }
                Err(IdError::MalformedResponse)
            },
        }
    }

    /// Enters the body loop, or finishes when nothing remains.
    fn finish_or_body(&mut self, offset: u32, remaining: u32, buffer: Vec<u8>)
        requires
            offset + remaining <= u32::MAX,
            old(self).variant is Gemalto ==> buffer@.len() >= 4,
        ensures
            final(self).variant == old(self).variant,
            final(self).file_id == old(self).file_id,
            final(self).strip_header == old(self).strip_header,
            final(self).wf(),
            final(self)@.state == spec_file_session_body(
                old(self)@,
                offset as int,
                remaining as int,
                buffer@,
            ),
    {
        if remaining == 0 {
            let is_gemalto_strip = match self.variant {
                CardVariant::Gemalto => self.strip_header,
                CardVariant::Apollo => false,
            };
            if is_gemalto_strip {
                let data = vstd::slice::slice_to_vec(
                    vstd::slice::slice_subrange(buffer.as_slice(), 4, buffer.len()),
                );
                proof {
                    assert(data@ =~= buffer@.skip(4));
                }
                self.state = FileReadState::Done { data };
            } else {
                self.state = FileReadState::Done { data: buffer };
            }
        } else {
            self.state = FileReadState::ReadBody { offset, remaining, buffer };
        }
    }
}


/// The total length an Apollo file header reports, at bytes 4..6.
pub open spec fn spec_apollo_total(image: Seq<u8>) -> int
    recommends
        image.len() >= 6,
{
    spec_le16(image[4], image[5]) as int
}

/// The total length a Gemalto file header reports, at bytes 2..4.
pub open spec fn spec_gemalto_total(image: Seq<u8>) -> int
    recommends
        image.len() >= 4,
{
    spec_le16(image[2], image[3]) as int
}

/// A well-formed in-memory image of one on-card file: long enough for
/// its header, and the length the header reports lies within the image
/// (with room for the embedded header when it is to be stripped).
pub open spec fn spec_image_wf(variant: CardVariant, strip_header: bool, image: Seq<u8>) -> bool {
    match variant {
        CardVariant::Apollo => image.len() >= 6 && 6 + spec_apollo_total(image) <= image.len()
            && (strip_header ==> spec_apollo_total(image) >= 4),
        CardVariant::Gemalto => image.len() >= 4 && 4 + spec_gemalto_total(image) <= image.len(),
    }
}

/// Where the block-read loop starts reading in the image.
pub open spec fn spec_body_start(variant: CardVariant, strip_header: bool) -> int {
    match variant {
        CardVariant::Apollo => if strip_header {
            10
        } else {
            6
        },
        CardVariant::Gemalto => 4,
    }
}

/// Where the assembled buffer's bytes start in the image: Gemalto
/// accumulates its 4 header bytes into the buffer, Apollo does not.
pub open spec fn spec_buffer_start(variant: CardVariant, strip_header: bool) -> int {
    match variant {
        CardVariant::Apollo => spec_body_start(variant, strip_header),
        CardVariant::Gemalto => 0,
    }
}

/// How many bytes the block-read loop fetches for this image.
pub open spec fn spec_body_len(variant: CardVariant, strip_header: bool, image: Seq<u8>) -> int {
    match variant {
        CardVariant::Apollo => spec_apollo_total(image) - if strip_header {
            4int
        } else {
            0int
        },
        CardVariant::Gemalto => spec_gemalto_total(image),
    }
}

/// The bytes a whole-file read returns for this image.
pub open spec fn spec_file_bytes(variant: CardVariant, strip_header: bool, image: Seq<u8>) -> Seq<
    u8,
> {
    match variant {
        CardVariant::Apollo => image.subrange(
            spec_body_start(variant, strip_header),
            6 + spec_apollo_total(image),
        ),
        CardVariant::Gemalto => if strip_header {
            image.subrange(4, 4 + spec_gemalto_total(image))
        } else {
            image.subrange(0, 4 + spec_gemalto_total(image))
        },
    }
}

/// How many block reads the loop takes for this image when every block
/// arrives in full: the body length divided by the block size, rounded
/// up.
pub open spec fn spec_block_rounds(
    variant: CardVariant,
    strip_header: bool,
    image: Seq<u8>,
) -> int {
    (spec_body_len(variant, strip_header, image) + 253) / 254
}

/// The bytes a running session still owes; zero once it no longer reads.
pub open spec fn spec_session_remaining(s: FileReadSessionView) -> int {
    match s.state {
        FileReadStateView::ReadBody { remaining, .. } => remaining,
        _ => 0,
    }
}

/// Runs the whole-file read against an in-memory image of the selected
/// file, standing for a card that returns every requested block in
/// full. Returns the assembled file bytes and the number of block reads
/// of the body loop: the bytes are exactly the image's payload in
/// order, and the count is the body length divided by the block size of
/// 254, rounded up.
pub fn read_whole_file_from_image(
    variant: CardVariant,
    file_id: u16,
    strip_header: bool,
    image: &Vec<u8>,
) -> (r: (Vec<u8>, usize))
    requires
        spec_image_wf(variant, strip_header, image@),
    ensures
        r.0@ == spec_file_bytes(variant, strip_header, image@),
        r.1 == spec_block_rounds(variant, strip_header, image@),
{
    let ghost bs = spec_body_start(variant, strip_header);
    let ghost b0 = spec_buffer_start(variant, strip_header);
    let ghost bl = spec_body_len(variant, strip_header, image@);
    let mut session = FileReadSession::new(variant, file_id, strip_header);

    // The SELECT response: a success status word behind a 2-byte payload
    // (Apollo expects at least its two framing bytes).
    let sel: Vec<u8> = vec![0x00, 0x00, 0x90, 0x00];
    proof {
        assert(spec_status(sel@) == SUCCESS_STATUS);
        assert(spec_payload(sel@).len() == 2);
    }
    let _ = session.advance(sel.as_slice());
    assert(session@.state is ReadHeader);

    // The header response: the image's first header-many bytes in full.
    let hl: usize = match variant {
        CardVariant::Apollo => 6,
        CardVariant::Gemalto => 4,
    };
    let mut hdr = vstd::slice::slice_to_vec(
        vstd::slice::slice_subrange(image.as_slice(), 0, hl),
    );
    hdr.push(0x90);
    hdr.push(0x00);
    proof {
        assert(spec_payload(hdr@) =~= image@.subrange(0, hl as int));
        assert(spec_status(hdr@) == SUCCESS_STATUS);
    }
    let _ = session.advance(hdr.as_slice());
    proof {
        let p = spec_payload(hdr@);
        assert(p.len() == hl);
        match variant {
            CardVariant::Apollo => {
                assert(p[4] == image@[4]);
                assert(p[5] == image@[5]);
            },
            CardVariant::Gemalto => {
                assert(p[2] == image@[2]);
                assert(p[3] == image@[3]);
                assert(p =~= image@.subrange(0, 4));
            },
        }
    }

    let mut rounds: usize = 0;
    proof {
        if bl == 0 {
            match variant {
                CardVariant::Apollo => {
                    assert(session@.state matches FileReadStateView::Done { data } && data
                        =~= spec_file_bytes(variant, strip_header, image@));
                },
                CardVariant::Gemalto => {
                    if strip_header {
                        assert(image@.subrange(0, 4).skip(4) =~= spec_file_bytes(
                            variant,
                            strip_header,
                            image@,
                        ));
                    } else {
                        assert(image@.subrange(0, 4) =~= spec_file_bytes(
                            variant,
                            strip_header,
                            image@,
                        ));
                    }
                },
            }
        } else {
            assert(session@.state matches FileReadStateView::ReadBody { offset, remaining, buffer }
                && offset == bs && remaining == bl && buffer =~= image@.subrange(b0, bs));
        }
    }
    loop
        invariant
            session.wf(),
            session@.variant == variant,
            session@.strip_header == strip_header,
            spec_image_wf(variant, strip_header, image@),
            bs == spec_body_start(variant, strip_header),
            b0 == spec_buffer_start(variant, strip_header),
            bl == spec_body_len(variant, strip_header, image@),
            0 <= bl <= 0xFFFF,
            match session@.state {
                FileReadStateView::ReadBody { offset, remaining, buffer } => {
                    &&& 0 < remaining <= bl
                    &&& offset == bs + (bl - remaining)
                    &&& buffer == image@.subrange(b0, offset)
                    &&& bl == 254 * (rounds as int) + remaining
                },
                FileReadStateView::Done { data } => data == spec_file_bytes(
                    variant,
                    strip_header,
                    image@,
                ) && rounds as int == spec_block_rounds(variant, strip_header, image@),
                _ => false,
            },
        ensures
            session@.state is Done,
        decreases spec_session_remaining(session@),
    {
        let progress = session.body_progress();
        match progress {
            None => {
                break ;
            },
            Some((offset, remaining)) => {
                let req: u32 = if remaining < BLOCK_SIZE {
                    remaining
                } else {
                    BLOCK_SIZE
                };
                let mut resp = vstd::slice::slice_to_vec(
                    vstd::slice::slice_subrange(
                        image.as_slice(),
                        offset as usize,
                        (offset + req) as usize,
                    ),
                );
                let ghost block = resp@;
                resp.push(0x90);
                resp.push(0x00);
                proof {
                    assert(spec_payload(resp@) =~= block);
                    assert(spec_status(resp@) == SUCCESS_STATUS);
                }
                let ghost pre = session@;
                let _ = session.advance(resp.as_slice());
                proof {
                    assert(image@.subrange(b0, offset + req) =~= image@.subrange(
                        b0,
                        offset as int,
                    ) + image@.subrange(offset as int, offset + req));
                    if remaining == req {
                        // The last round: what the session finishes with
                        // is the image's payload, and the round count is
                        // the body length divided by 254, rounded up.
                        assert(bl == 254 * (rounds as int) + remaining);
                        assert(1 <= remaining <= 254);
                        lemma_fundamental_div_mod_converse(
                            bl + 253,
                            254,
                            rounds as int + 1,
                            remaining - 1,
                        );
                        match variant {
                            CardVariant::Apollo => {
                                assert(image@.subrange(b0, offset + req) =~= spec_file_bytes(
                                    variant,
                                    strip_header,
                                    image@,
                                ));
                            },
                            CardVariant::Gemalto => {
                                if strip_header {
                                    assert(image@.subrange(0, offset + req).skip(4)
                                        =~= spec_file_bytes(variant, strip_header, image@));
                                } else {
                                    assert(image@.subrange(0, offset + req) =~= spec_file_bytes(
                                        variant,
                                        strip_header,
                                        image@,
                                    ));
                                }
                            },
                        }
                    }
                }
                rounds = rounds + 1;
            },
        }
    }
    let data = session.take_data();
    (data, rounds)
}


/// The phase of a whole-card read, as the contracts speak of it.
pub enum ReadIdPhaseView {
    /// The identity application is being selected (Gemalto only; an
    /// Apollo card comes with it preselected).
    SelectAid,
    /// File `index` of the fixed sequence is being read.
    File { index: int, file: FileReadSessionView },
    /// All four files were read and merged.
    Done,
    /// A step failed; nothing more will be asked.
    Failed { error: IdError },
}

enum ReadIdPhase {
    SelectAid,
    File { index: u8, fs: FileReadSession },
    Done,
    Failed { error: IdError },
}

/// The file identifier read at each step of the fixed sequence:
/// personal data, residence data, document data, then the photograph.
pub open spec fn spec_nth_file(i: int) -> u16 {
    if i == 0 {
        PERSONAL_FILE
    } else if i == 1 {
        RESIDENCE_FILE
    } else if i == 2 {
        DOCUMENT_FILE
    } else {
        PHOTO_FILE
    }
}

/// Only the photograph file, read last, has its header stripped.
pub open spec fn spec_nth_strip(i: int) -> bool {
    i == 3
}

/// The file identifier read at each step of the fixed sequence.
fn nth_file(i: u8) -> (f: u16)
    requires
        i < 4,
    ensures
        f == spec_nth_file(i as int),
{
    if i == 0 {
        PERSONAL_FILE
    } else if i == 1 {
        RESIDENCE_FILE
    } else if i == 2 {
        DOCUMENT_FILE
    } else {
        PHOTO_FILE
    }
}

/// Both records agree except that the decoded file `tlv` was merged in:
/// exactly what one [`PersonalId::fit_in`] step does.
pub open spec fn spec_merged_record(
    pre: PersonalId,
    post: PersonalId,
    tlv: Map<u16, Seq<u8>>,
) -> bool {
    &&& post.wf()
    &&& post.variant() == pre.variant()
    &&& post.spec_image() == pre.spec_image()
    &&& forall|t: PersonalIdTag| post.spec_get(t) == spec_merge_value(pre.spec_get(t), tlv, t)
}

/// The read of a whole card, driven step by step: select the identity
/// application once, then read and merge the three structured files,
/// then read the photograph, in that fixed order - each file read
/// depends on the selection state the previous step left on the card,
/// so the sequence must never be interleaved or reordered. The caller
/// transmits what [`ReadIdSession::request`] names and hands each
/// response to [`ReadIdSession::advance`]; any failure parks the
/// session with that error and no partial result is handed out.
pub struct ReadIdSession {
    id: PersonalId,
    phase: ReadIdPhase,
}

impl ReadIdSession {
    /// Well-formedness: the record stays well-formed, and a running file
    /// read matches the sequence position it was started for.
    pub closed spec fn wf(self) -> bool {
        &&& self.id.wf()
        &&& match self.phase {
            ReadIdPhase::SelectAid => self.id.variant() is Gemalto,
            ReadIdPhase::File { index, fs } => {
                &&& 0 <= index < 4
                &&& fs.wf()
                &&& fs@.variant == self.id.variant()
                &&& fs@.file_id == spec_nth_file(index as int)
                &&& fs@.strip_header == spec_nth_strip(index as int)
                &&& !(fs@.state is Done)
                &&& !(fs@.state is Failed)
            },
            ReadIdPhase::Done => true,
            ReadIdPhase::Failed { .. } => true,
        }
    }

    /// The record as assembled so far.
    pub closed spec fn record(&self) -> PersonalId {
        self.id
    }

    /// The session's phase.
    pub closed spec fn phase_view(&self) -> ReadIdPhaseView {
        match self.phase {
            ReadIdPhase::SelectAid => ReadIdPhaseView::SelectAid,
            ReadIdPhase::File { index, fs } => ReadIdPhaseView::File {
                index: index as int,
                file: fs@,
            },
            ReadIdPhase::Done => ReadIdPhaseView::Done,
            ReadIdPhase::Failed { error } => ReadIdPhaseView::Failed { error },
        }
    }

    /// Starts the read for a record: a Gemalto card must first select
    /// the identity application, an Apollo card goes straight to the
    /// first file.
    pub fn new(id: PersonalId) -> (s: ReadIdSession)
        requires
            id.wf(),
        ensures
            s.wf(),
            s.record() == id,
            id.variant() is Gemalto ==> s.phase_view() is SelectAid,
            id.variant() is Apollo ==> s.phase_view() == (ReadIdPhaseView::File {
                index: 0,
                file: FileReadSessionView {
                    variant: id.variant(),
                    file_id: PERSONAL_FILE,
                    strip_header: false,
                    state: FileReadStateView::SelectFile,
                },
            }),
    {
        let variant = id.card_variant();
        match variant {
            CardVariant::Gemalto => ReadIdSession { id, phase: ReadIdPhase::SelectAid },
            CardVariant::Apollo => {
                let fs = FileReadSession::new(variant, nth_file(0), false);
                ReadIdSession { id, phase: ReadIdPhase::File { index: 0, fs } }
            },
        }
    }

    /// The command to transmit next, if the read still runs.
    pub fn request(&self) -> (r: Option<Vec<u8>>)
        requires
            self.wf(),
        ensures
            self.phase_view() is SelectAid ==> (r matches Some(a) && a@ == spec_select_aid_apdu()),
            self.phase_view() matches ReadIdPhaseView::File { file, .. } ==> ((file.state
                is SelectFile ==> (r matches Some(a) && a@ == spec_select_file_apdu(file.file_id, 4)))
                && (file.state is ReadHeader ==> (r matches Some(a) && a@ == spec_read_binary_apdu(
                0,
                spec_header_len(file.variant),
            ))) && (file.state matches FileReadStateView::ReadBody { offset, remaining, .. } ==> (r
                matches Some(a) && a@ == spec_read_binary_apdu(offset as u32, remaining as u32)))),
            self.phase_view() is Done ==> r is None,
            self.phase_view() is Failed ==> r is None,
    {
        match &self.phase {
            ReadIdPhase::SelectAid => Some(select_aid_apdu()),
            ReadIdPhase::File { fs, .. } => fs.request(),
            ReadIdPhase::Done => None,
            ReadIdPhase::Failed { .. } => None,
        }
    }

    /// All four files were read and merged.
    pub fn is_done(&self) -> (r: bool)
        ensures
            r <==> self.phase_view() is Done,
    {
        match &self.phase {
            ReadIdPhase::Done => true,
            _ => false,
        }
    }

    /// A step failed earlier.
    pub fn is_failed(&self) -> (r: bool)
        ensures
            r <==> self.phase_view() is Failed,
    {
        match &self.phase {
            ReadIdPhase::Failed { .. } => true,
            _ => false,
        }
    }

    /// Hands the finished record out.
    pub fn finish(self) -> (r: PersonalId)
        requires
            self.phase_view() is Done,
        ensures
            r == self.record(),
    {
        self.id
    }

    /// Feeds the card's response to the step that awaited it: a good
    /// select-application response starts the first file; a finished
    /// structured file is decoded and merged into the record; the
    /// finished photograph file becomes the record's image and ends the
    /// read; and any failing step parks the session with its error,
    /// the record untouched by that step.
    pub fn advance(&mut self, resp: &[u8]) -> (r: Result<(), IdError>)
        requires
            old(self).wf(),
            !(old(self).phase_view() is Done),
            !(old(self).phase_view() is Failed),
        ensures
            final(self).wf(),
            final(self).record().variant() == old(self).record().variant(),
            r is Err <==> final(self).phase_view() is Failed,
            r matches Err(e) ==> final(self).phase_view() == (ReadIdPhaseView::Failed {
                error: e,
            }) && final(self).record() == old(self).record(),
            old(self).phase_view() is SelectAid && spec_response_ok(resp@) ==> (r is Ok
                && final(self).record() == old(self).record() && final(self).phase_view() == (ReadIdPhaseView::File {
                index: 0,
                file: FileReadSessionView {
                    variant: old(self).record().variant(),
                    file_id: PERSONAL_FILE,
                    strip_header: false,
                    state: FileReadStateView::SelectFile,
                },
            })),
            old(self).phase_view() is SelectAid && !spec_response_ok(resp@) ==> r == Err::<
                (),
                IdError,
            >(spec_response_error(resp@)),
            old(self).phase_view() matches ReadIdPhaseView::File { index, file } ==> ({
                let stepped = spec_file_session_advance(file, resp@);
                match stepped.state {
                    FileReadStateView::Failed { error } => r == Err::<(), IdError>(error),
                    FileReadStateView::Done { data } => {
                        if index < 3 {
                            match spec_parse_tlv(data) {
                                Some(tlv) => r is Ok && spec_merged_record(
                                    old(self).record(),
                                    final(self).record(),
                                    tlv,
                                ) && final(self).phase_view() == (ReadIdPhaseView::File {
                                    index: index + 1,
                                    file: FileReadSessionView {
                                        variant: old(self).record().variant(),
                                        file_id: spec_nth_file(index + 1),
                                        strip_header: spec_nth_strip(index + 1),
                                        state: FileReadStateView::SelectFile,
                                    },
                                }),
                                None => r == Err::<(), IdError>(IdError::MalformedTlv),
                            }
                        } else {
                            r is Ok && final(self).record().spec_image() == data && (forall|t: PersonalIdTag|
                                final(self).record().spec_get(t) == old(self).record().spec_get(t))
                                && final(self).phase_view() is Done
                        }
                    },
                    _ => r is Ok && final(self).record() == old(self).record()
                        && final(self).phase_view() == (ReadIdPhaseView::File { index, file: stepped }),
                }
            }),
    {
        let mut ph = ReadIdPhase::Done;
        core::mem::swap(&mut ph, &mut self.phase);
        match ph {
            ReadIdPhase::SelectAid => {
                match split_response(resp) {
                    Ok(_) => {
                        let fs = FileReadSession::new(self.id.card_variant(), nth_file(0), false);
                        self.phase = ReadIdPhase::File { index: 0, fs };
                        Ok(())
                    },
                    Err(e) => {
                        self.phase = ReadIdPhase::Failed { error: e };
                        Err(e)
                    },
                }
            },
            ReadIdPhase::File { index, mut fs } => {
                match fs.advance(resp) {
                    Err(e) => {
                        self.phase = ReadIdPhase::Failed { error: e };
                        Err(e)
                    },
                    Ok(()) => {
                        if fs.is_done() {
                            let data = fs.take_data();
                            if index < 3 {
                                match self.id.merge_file(&data) {
                                    Ok(()) => {
                                        let ni: u8 = index + 1;
                                        let nfs = FileReadSession::new(
                                            self.id.card_variant(),
                                            nth_file(ni),
                                            ni == 3,
                                        );
                                        self.phase = ReadIdPhase::File { index: ni, fs: nfs };
                                        Ok(())
                                    },
                                    Err(e) => {
                                        self.phase = ReadIdPhase::Failed { error: e };
                                        Err(e)
                                    },
                                }
                            } else {
                                self.id.set_image(data);
                                self.phase = ReadIdPhase::Done;
                                Ok(())
                            }
                        } else {
                            self.phase = ReadIdPhase::File { index, fs };
                            Ok(())
                        }
                    },
                }
            },
            ReadIdPhase::Done => {
                proof {
                    assert(false);
                }
                Err(IdError::MalformedResponse)
            },
            ReadIdPhase::Failed { error } => {
                proof {
                    assert(false);
                }
                Err(error)
            },
        }
    }
}

} // verus!
