use vstd::prelude::*;
use crate::error::IdError;

verus! {

/// The largest payload one READ BINARY command may request, a transport limit.
pub const BLOCK_SIZE: u32 = 254;

/// The status word that every successful response ends with.
pub const SUCCESS_STATUS: u16 = 0x9000;

/// File identifier of the personal-data file.
pub const PERSONAL_FILE: u16 = 0x0F03;

/// File identifier of the document-data file.
pub const DOCUMENT_FILE: u16 = 0x0F02;

/// File identifier of the residence-data file.
pub const RESIDENCE_FILE: u16 = 0x0F04;

/// File identifier of the photograph file.
pub const PHOTO_FILE: u16 = 0x0F06;

/// The application identifier of the identity applet.
pub open spec fn spec_aid() -> Seq<u8> {
    seq![0xF3u8, 0x81, 0x00, 0x00, 0x02, 0x53, 0x45, 0x52, 0x49, 0x44, 0x01]
}

/// The application identifier of the identity applet, as bytes.
pub fn licna_karta_aid() -> (r: Vec<u8>)
    ensures
        r@ == spec_aid(),
{
    let mut v: Vec<u8> = Vec::new();
    v.push(0xF3);
    v.push(0x81);
    v.push(0x00);
    v.push(0x00);
    v.push(0x02);
    v.push(0x53);
    v.push(0x45);
    v.push(0x52);
    v.push(0x49);
    v.push(0x44);
    v.push(0x01);
    assert(v@ =~= spec_aid());
    v
}

/// The SELECT-by-name command carrying the identity applet's identifier.
pub open spec fn spec_select_aid_apdu() -> Seq<u8> {
    seq![0x00u8, 0xa4, 0x04, 0x00, 0x0b] + spec_aid()
}

/// Builds the SELECT-by-name command for the identity applet.
pub fn select_aid_apdu() -> (r: Vec<u8>)
    ensures
        r@ == spec_select_aid_apdu(),
{
    let mut v: Vec<u8> = Vec::new();
    v.push(0x00);
    v.push(0xa4);
    v.push(0x04);
    v.push(0x00);
    v.push(0x0b);
    let mut aid = licna_karta_aid();
    v.append(&mut aid);
    assert(v@ =~= spec_select_aid_apdu());
    v
}

/// The SELECT-by-file-id command for a 2-byte file identifier and a
/// 1-byte expected-length hint. Both chip families use this exact shape.
pub open spec fn spec_select_file_apdu(file_id: u16, expected_len: u8) -> Seq<u8> {
    seq![
        0x00u8,
        0xa4,
        0x08,
        0x00,
        0x02,
        ((file_id >> 8) & 0xff) as u8,
        (file_id & 0xff) as u8,
        expected_len,
    ]
}

/// Builds the SELECT-by-file-id command.
pub fn select_file_apdu(file_id: u16, expected_len: u8) -> (r: Vec<u8>)
    ensures
        r@ == spec_select_file_apdu(file_id, expected_len),
{
    let mut v: Vec<u8> = Vec::new();
    v.push(0x00);
    v.push(0xa4);
    v.push(0x08);
    v.push(0x00);
    v.push(0x02);
    v.push(((file_id >> 8) & 0xff) as u8);
    v.push((file_id & 0xff) as u8);
    v.push(expected_len);
    assert(v@ =~= spec_select_file_apdu(file_id, expected_len));
    v
}

/// The READ BINARY command: P1/P2 carry the offset's high and low byte
/// (offsets beyond 16 bits are not representable, an implicit file-size
/// ceiling), and the requested length is clamped to [`BLOCK_SIZE`].
pub open spec fn spec_read_binary_apdu(offset: u32, length: u32) -> Seq<u8> {
    seq![
        0x00u8,
        0xb0,
        ((offset >> 8) & 0xff) as u8,
        (offset & 0xff) as u8,
        (if length < 254 { length } else { 254u32 }) as u8,
    ]
}

/// Builds the READ BINARY command.
pub fn read_binary_apdu(offset: u32, length: u32) -> (r: Vec<u8>)
    ensures
        r@ == spec_read_binary_apdu(offset, length),
{
    let read_size: u32 = if length < BLOCK_SIZE {
        length
    } else {
        BLOCK_SIZE
    };
    let mut v: Vec<u8> = Vec::new();
    v.push(0x00);
    v.push(0xb0);
    v.push(((offset >> 8) & 0xff) as u8);
    v.push((offset & 0xff) as u8);
    v.push(read_size as u8);
    assert(v@ =~= spec_read_binary_apdu(offset, length));
    v
}

/// The trailing 2-byte status word of a response, high byte first.
pub open spec fn spec_status(resp: Seq<u8>) -> u16
    recommends
        resp.len() >= 2,
{
    ((resp[resp.len() - 2] as int) * 256 + (resp[resp.len() - 1] as int)) as u16
}

/// The data payload of a response: everything before the status word.
pub open spec fn spec_payload(resp: Seq<u8>) -> Seq<u8>
    recommends
        resp.len() >= 2,
{
    resp.take(resp.len() - 2)
}

/// A response carries the success status word.
pub open spec fn spec_response_ok(resp: Seq<u8>) -> bool {
    resp.len() >= 2 && spec_status(resp) == SUCCESS_STATUS
}

/// The error reported for a response that is not a success: too short,
/// or carrying an unexpected status word.
pub open spec fn spec_response_error(resp: Seq<u8>) -> IdError
    recommends
        !spec_response_ok(resp),
{
    if resp.len() < 2 {
        IdError::MalformedResponse
    } else {
        IdError::UnexpectedStatus(spec_status(resp))
    }
}

/// Validates the trailing status word of a response and strips it,
/// returning the data payload alone.
pub fn split_response(resp: &[u8]) -> (r: Result<Vec<u8>, IdError>)
    ensures
        r is Ok <==> spec_response_ok(resp@),
        r matches Ok(payload) ==> payload@ == spec_payload(resp@),
        r matches Err(e) ==> e == spec_response_error(resp@),
{
    let n: usize = resp.len();
    if n < 2 {
        return Err(IdError::MalformedResponse);
    }
    let status: u16 = (resp[n - 2] as u16) * 256 + (resp[n - 1] as u16);
    if status != SUCCESS_STATUS {
        return Err(IdError::UnexpectedStatus(status));
    }
    let payload = vstd::slice::slice_to_vec(vstd::slice::slice_subrange(resp, 0, n - 2));
    assert(payload@ =~= spec_payload(resp@));
    Ok(payload)
}

} // verus!
