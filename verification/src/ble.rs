//! A BLE keyboard peripheral: the advertising data it sends, and the
//! answers of its GATT event task.
use vstd::prelude::*;
use trouble_host::advertise::AdStructure;

verus! {

/// The ATT error code `Insufficient Encryption`.
pub const INSUFFICIENT_ENCRYPTION: u8 = 0x0F;

/// A GATT request from the central.
#[derive(Clone, Copy, Debug, PartialEq, Eq, Structural)]
pub enum GattRequest {
    Read,
    Write,
}

/// The answer to a GATT request.
#[derive(Clone, Copy, Debug, PartialEq, Eq, Structural)]
pub enum GattReply {
    /// Carry the request out.
    Accept,
    /// Refuse the request with this ATT error code.
    Reject(u8),
}

/// Answers a request: reads and writes alike are refused with
/// `Insufficient Encryption` until the link is encrypted.
pub fn gatt_reply(request: GattRequest, encrypted: bool) -> (r: GattReply)
    ensures
        encrypted ==> r == GattReply::Accept,
        !encrypted ==> r == GattReply::Reject(INSUFFICIENT_ENCRYPTION),
{
    match request {
        GattRequest::Read => {
            if encrypted {
                GattReply::Accept
            } else {
                GattReply::Reject(INSUFFICIENT_ENCRYPTION)
            }
        },
        GattRequest::Write => {
            if encrypted {
                GattReply::Accept
            } else {
                GattReply::Reject(INSUFFICIENT_ENCRYPTION)
            }
        },
    }
}

/// An event of a GATT connection, as the event task sees it.
#[derive(Clone, Copy, Debug, PartialEq, Eq, Structural)]
pub enum GattEvent {
    /// The central disconnected.
    Disconnected,
    /// A request came in.
    Request(GattRequest),
    /// An event came in that could not be processed.
    Failed,
    /// Any other connection event.
    Other,
}

/// What the event task does with an event.
#[derive(Clone, Copy, Debug, PartialEq, Eq, Structural)]
pub enum GattStep {
    /// Stop: the connection is gone.
    Stop,
    /// Answer the request this way, then go on.
    Answer(GattReply),
    /// Log the failure, then go on.
    LogFailure,
    /// Go on with the next event.
    Continue,
}

/// The event task's step on `event`: it stops on a disconnection, answers
/// requests as [`gatt_reply`] does, logs failed events and goes on.
pub fn gatt_step(event: GattEvent, encrypted: bool) -> (s: GattStep)
    ensures
        event == GattEvent::Disconnected ==> s == GattStep::Stop,
        event matches GattEvent::Request(_) ==> s == GattStep::Answer(
            if encrypted { GattReply::Accept } else { GattReply::Reject(INSUFFICIENT_ENCRYPTION) },
        ),
        event == GattEvent::Failed ==> s == GattStep::LogFailure,
        event == GattEvent::Other ==> s == GattStep::Continue,
{
    match event {
        GattEvent::Disconnected => GattStep::Stop,
        GattEvent::Request(request) => GattStep::Answer(gatt_reply(request, encrypted)),
        GattEvent::Failed => GattStep::LogFailure,
        GattEvent::Other => GattStep::Continue,
    }
}

/// Advertising flag: LE General Discoverable Mode.
pub const LE_GENERAL_DISCOVERABLE: u8 = 0b0000_0010;

/// Advertising flag: BR/EDR Not Supported.
pub const BR_EDR_NOT_SUPPORTED: u8 = 0b0000_0100;

/// Length of an advertising data buffer.
pub const ADV_DATA_LEN: usize = 31;

/// One advertising data structure.
pub enum AdField<'a> {
    /// Device flags.
    Flags(u8),
    /// An incomplete list of 16-bit service UUIDs.
    ServiceUuids16(&'a [[u8; 2]]),
    /// The device's complete local name.
    CompleteLocalName(&'a [u8]),
}

/// The bytes of a list of 16-bit UUIDs, each as given.
pub open spec fn uuid16_bytes(uuids: Seq<[u8; 2]>) -> Seq<u8>
    decreases uuids.len(),
{
    if uuids.len() == 0 {
        Seq::empty()
    } else {
        uuid16_bytes(uuids.drop_last()) + uuids.last()@
    }
}

/// The encoding of one structure: its length byte (the type byte and the
/// payload), its type byte, then its payload.
pub open spec fn field_bytes(f: AdField) -> Seq<u8> {
    match f {
        AdField::Flags(flags) => seq![2u8, 1u8, flags],
        AdField::ServiceUuids16(uuids) => seq![(uuids@.len() * 2 + 1) as u8, 2u8] + uuid16_bytes(uuids@),
        AdField::CompleteLocalName(name) => seq![(name@.len() + 1) as u8, 9u8] + name@,
    }
}

/// The encoding of structures one after the other.
pub open spec fn fields_bytes(fields: Seq<AdField>) -> Seq<u8>
    decreases fields.len(),
{
    if fields.len() == 0 {
        Seq::empty()
    } else {
        fields_bytes(fields.drop_last()) + field_bytes(fields.last())
    }
}

/// Advertising data that do not fit in their buffer.
#[derive(Clone, Copy, Debug, PartialEq, Eq, Structural)]
pub struct AdTooLong;

/// `AdStructure::encode_slice`: writes the structures one after the other
/// at the start of `dest` and gives the number of bytes written, or fails
/// when they do not fit. What a failed call leaves in `dest` is not stated.
#[verifier::external_body]
fn encode_ad_fields(fields: &[AdField], dest: &mut [u8; 31]) -> (r: Result<usize, AdTooLong>)
    ensures
        r is Ok <==> fields_bytes(fields@).len() <= ADV_DATA_LEN,
        r matches Ok(n) ==> n == fields_bytes(fields@).len() && final(dest)@ == fields_bytes(fields@) + old(dest)@.skip(n as int),
{
    let mut items = Vec::new();
    for f in fields {
        items.push(match f {
            AdField::Flags(flags) => AdStructure::Flags(*flags),
            AdField::ServiceUuids16(uuids) => AdStructure::IncompleteServiceUuids16(uuids),
            AdField::CompleteLocalName(name) => AdStructure::CompleteLocalName(name),
        });
    }
    match AdStructure::encode_slice(&items, &mut dest[..]) {
        Ok(n) => Ok(n),
        Err(_) => Err(AdTooLong),
    }
}

/// The advertising data of the peripheral named `name`: its flags (general
/// discoverable, no BR/EDR), the advertised service UUID and its complete
/// name, padded with zeros to the buffer's 31 bytes; or an error when they do
/// not fit.
pub fn advertising_data(name: &[u8]) -> (r: Result<[u8; 31], AdTooLong>)
    ensures
        r is Ok <==> 3 + 4 + 2 + name@.len() <= ADV_DATA_LEN,
        r matches Ok(data) ==> data@ == seq![2u8, 1u8, LE_GENERAL_DISCOVERABLE | BR_EDR_NOT_SUPPORTED]
            + seq![3u8, 2u8, 0x0fu8, 0x18u8] + seq![(name@.len() + 1) as u8, 9u8] + name@
            + Seq::new((ADV_DATA_LEN - (9 + name@.len())) as nat, |i: int| 0u8),
{
    let mut advertiser_data = [0u8; 31];
    let uuid: [u8; 2] = [0x0f, 0x18];
    let uuids: [[u8; 2]; 1] = [uuid];
    let uuid_list = uuids.as_slice();
    let mut fields: Vec<AdField> = Vec::new();
    fields.push(AdField::Flags(LE_GENERAL_DISCOVERABLE | BR_EDR_NOT_SUPPORTED));
    fields.push(AdField::ServiceUuids16(uuid_list));
    fields.push(AdField::CompleteLocalName(name));
    let ghost f = fields@;
    proof {
        let f2 = f.drop_last();
        let f1 = f2.drop_last();
        assert(f1.drop_last() =~= Seq::<AdField>::empty());
        assert(uuid@ =~= seq![0x0fu8, 0x18u8]);
        assert(uuid_list@ =~= seq![uuid]);
        assert(uuid_list@.drop_last() =~= Seq::<[u8; 2]>::empty());
        assert(uuid16_bytes(Seq::<[u8; 2]>::empty()) =~= Seq::<u8>::empty());
        assert(uuid16_bytes(uuid_list@.drop_last()) =~= Seq::<u8>::empty());
        assert(uuid_list@.last() == uuid);
        assert(uuid16_bytes(uuid_list@) =~= seq![0x0fu8, 0x18u8]);
        assert(fields_bytes(Seq::<AdField>::empty()) =~= Seq::<u8>::empty());
        assert(fields_bytes(f1.drop_last()) =~= Seq::<u8>::empty());
        assert(f1.last() == AdField::Flags(LE_GENERAL_DISCOVERABLE | BR_EDR_NOT_SUPPORTED));
        assert(fields_bytes(f1) =~= seq![2u8, 1u8, LE_GENERAL_DISCOVERABLE | BR_EDR_NOT_SUPPORTED]);
        assert(fields_bytes(f2) =~= seq![2u8, 1u8, LE_GENERAL_DISCOVERABLE | BR_EDR_NOT_SUPPORTED]
            + seq![3u8, 2u8, 0x0fu8, 0x18u8]);
        assert(fields_bytes(f) =~= seq![2u8, 1u8, LE_GENERAL_DISCOVERABLE | BR_EDR_NOT_SUPPORTED]
            + seq![3u8, 2u8, 0x0fu8, 0x18u8] + seq![(name@.len() + 1) as u8, 9u8] + name@);
    }
    match encode_ad_fields(fields.as_slice(), &mut advertiser_data) {
        Ok(_) => {
            proof {
                assert(advertiser_data@ =~= seq![2u8, 1u8, LE_GENERAL_DISCOVERABLE | BR_EDR_NOT_SUPPORTED]
                    + seq![3u8, 2u8, 0x0fu8, 0x18u8] + seq![(name@.len() + 1) as u8, 9u8] + name@
                    + Seq::new((ADV_DATA_LEN - (9 + name@.len())) as nat, |i: int| 0u8));
            }
            Ok(advertiser_data)
        },
        Err(e) => Err(e),
    }
}

} // verus!
