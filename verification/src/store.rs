use vstd::prelude::*;

verus! {

/// Size in bytes of the serialized parameters.
pub const PARAMETERS_SIZE: usize = 72;

/// Size in bytes of a serialized store: version (4 bytes, big endian),
/// token (2 bytes, big endian), CRC (2 bytes, big endian), then the
/// parameters.
pub const STORE_SIZE: usize = 80;

/// Marker stored beside the parameters; changing it invalidates data saved
/// before.
pub const TOKEN: u16 = 102;

/// CRC-16/USB checksum of `bytes`, as the `crc` crate computes it.
pub uninterp spec fn crc16_usb(bytes: Seq<u8>) -> u16;

/// Calls `crc::Crc::<u16>::checksum` with the `CRC_16_USB` algorithm, a pure
/// function of the bytes; its value is left to the name `crc16_usb`.
#[verifier::external_body]
fn checksum(bytes: &[u8; PARAMETERS_SIZE]) -> (r: u16)
    ensures
        r == crc16_usb(bytes@),
{
    crc::Crc::<u16>::new(&crc::CRC_16_USB).checksum(bytes)
}

/// What a store holds.
pub struct StoreModel {
    pub version: u32,
    pub token: u16,
    pub parameters: Seq<u8>,
    pub crc: u16,
}

/// Whether a store holds data that can be trusted: the current token and a
/// CRC that matches the parameters.
pub open spec fn is_valid(m: StoreModel) -> bool {
    &&& m.token == TOKEN
    &&& m.parameters.len() == PARAMETERS_SIZE
    &&& m.crc == crc16_usb(m.parameters)
}

/// Big-endian bytes of a 32-bit number.
pub open spec fn be_u32(v: u32) -> Seq<u8> {
    seq![
        (v / 0x1000000) as u8,
        ((v / 0x10000) % 0x100) as u8,
        ((v / 0x100) % 0x100) as u8,
        (v % 0x100) as u8,
    ]
}

/// Big-endian bytes of a 16-bit number.
pub open spec fn be_u16(v: u16) -> Seq<u8> {
    seq![(v / 0x100) as u8, (v % 0x100) as u8]
}

/// The 32-bit number whose big-endian bytes start `b`.
pub open spec fn from_be_u32(b: Seq<u8>) -> u32 {
    (b[0] * 0x1000000 + b[1] * 0x10000 + b[2] * 0x100 + b[3]) as u32
}

/// The 16-bit number whose big-endian bytes start `b`.
pub open spec fn from_be_u16(b: Seq<u8>) -> u16 {
    (b[0] * 0x100 + b[1]) as u16
}

/// The bytes a store is saved as.
pub open spec fn encode(m: StoreModel) -> Seq<u8> {
    be_u32(m.version) + be_u16(m.token) + be_u16(m.crc) + m.parameters
}

/// The store read from `bytes`, before any check.
pub open spec fn decode(bytes: Seq<u8>) -> StoreModel {
    StoreModel {
        version: from_be_u32(bytes.subrange(0, 4)),
        token: from_be_u16(bytes.subrange(4, 6)),
        crc: from_be_u16(bytes.subrange(6, 8)),
        parameters: bytes.subrange(8, STORE_SIZE as int),
    }
}

/// The data read back from a store's bytes failed a check: the token or the
/// CRC does not match.
#[derive(Debug)]
pub struct InvalidData;

/// The parameters of the module, serialized, with what is needed to check
/// them when they are read back.
#[derive(Clone, Copy)]
pub struct Store {
    version: u32,
    token: u16,
    parameters_raw: [u8; PARAMETERS_SIZE],
    crc: u16,
}

impl View for Store {
    type V = StoreModel;

    closed spec fn view(&self) -> StoreModel {
        StoreModel {
            version: self.version,
            token: self.token,
            parameters: self.parameters_raw@,
            crc: self.crc,
        }
    }
}

impl Store {
    /// Size in bytes of a serialized store.
    pub const SIZE: usize = 80;

    #[verifier::type_invariant]
    spec fn checked(self) -> bool {
        &&& self.token == TOKEN
        &&& self.crc == crc16_usb(self.parameters_raw@)
    }

    /// A store of the serialized `parameters`, saved by firmware `version`.
    pub fn new(parameters: [u8; PARAMETERS_SIZE], version: u32) -> (r: Self)
        ensures
            r@ == (StoreModel {
                version,
                token: TOKEN,
                parameters: parameters@,
                crc: crc16_usb(parameters@),
            }),
    {
        let crc = checksum(&parameters);
        Self { version, parameters_raw: parameters, crc, token: TOKEN }
    }

    /// Reads a store back from its bytes; fails when its token or its CRC
    /// does not match.
    pub fn from_bytes(bytes: [u8; STORE_SIZE]) -> (r: Result<Self, InvalidData>)
        ensures
            r is Ok <==> is_valid(decode(bytes@)),
            r matches Ok(store) ==> store@ == decode(bytes@),
    {
        let version = (bytes[0] as u32) * 0x1000000 + (bytes[1] as u32) * 0x10000 + (bytes[2] as u32)
            * 0x100 + bytes[3] as u32;
        let token = (bytes[4] as u16) * 0x100 + bytes[5] as u16;
        let crc = (bytes[6] as u16) * 0x100 + bytes[7] as u16;

        let mut parameters_raw = [0u8; PARAMETERS_SIZE];
        let mut i: usize = 0;
        while i < PARAMETERS_SIZE
            invariant
                i <= PARAMETERS_SIZE,
                forall|j: int| 0 <= j < i ==> parameters_raw@[j] == bytes@[j + 8],
            decreases PARAMETERS_SIZE - i,
        {
            parameters_raw[i] = bytes[i + 8];
            i = i + 1;
        }
        proof {
            broadcast use vstd::array::group_array_axioms;

            assert(parameters_raw@ =~= bytes@.subrange(8, STORE_SIZE as int));
            assert(bytes@.subrange(0, 4)[0] == bytes@[0]);
        }

        if token != TOKEN {
            return Err(InvalidData);
        }

        let parameters_checksum = checksum(&parameters_raw);
        Self::from_checked_parts(version, parameters_raw, crc, parameters_checksum)
    }

    /// A store of the current token holding `parameters` saved by firmware
    /// `version`, whose saved CRC `crc` is held against
    /// `parameters_checksum`, the CRC-16/USB checksum of `parameters`; fails
    /// when the two differ.
    pub fn from_checked_parts(
        version: u32,
        parameters: [u8; PARAMETERS_SIZE],
        crc: u16,
        parameters_checksum: u16,
    ) -> (r: Result<Self, InvalidData>)
        requires
            parameters_checksum == crc16_usb(parameters@),
        ensures
            r is Ok <==> crc == parameters_checksum,
            r matches Ok(store) ==> store@ == (StoreModel {
                version,
                token: TOKEN,
                parameters: parameters@,
                crc,
            }),
    {
        if parameters_checksum == crc {
            Ok(Store { version, parameters_raw: parameters, crc, token: TOKEN })
        } else {
            Err(InvalidData)
        }
    }

    /// The bytes the store is saved as.
    pub fn to_bytes(self) -> (r: [u8; STORE_SIZE])
        ensures
            r@ == encode(self@),
            is_valid(self@),
    {
        proof {
            use_type_invariant(&self);
        }
        let mut bytes = [0u8; STORE_SIZE];

        bytes[0] = (self.version / 0x1000000) as u8;
        bytes[1] = ((self.version / 0x10000) % 0x100) as u8;
        bytes[2] = ((self.version / 0x100) % 0x100) as u8;
        bytes[3] = (self.version % 0x100) as u8;
        bytes[4] = (self.token / 0x100) as u8;
        bytes[5] = (self.token % 0x100) as u8;
        bytes[6] = (self.crc / 0x100) as u8;
        bytes[7] = (self.crc % 0x100) as u8;

        let mut i: usize = 0;
        while i < PARAMETERS_SIZE
            invariant
                i <= PARAMETERS_SIZE,
                bytes@.len() == STORE_SIZE,
                bytes@.subrange(0, 8) == be_u32(self.version) + be_u16(self.token) + be_u16(self.crc),
                forall|j: int| 0 <= j < i ==> bytes@[j + 8] == self.parameters_raw@[j],
            decreases PARAMETERS_SIZE - i,
        {
            bytes[i + 8] = self.parameters_raw[i];
            i = i + 1;
        }
        proof {
            broadcast use vstd::array::group_array_axioms;

            assert(bytes@ =~= encode(self@));
        }
        bytes
    }

    /// The serialized parameters.
    pub fn parameters(&self) -> (r: [u8; PARAMETERS_SIZE])
        ensures
            r@ == self@.parameters,
    {
        self.parameters_raw
    }

    /// Version of the firmware that saved the store.
    pub fn version(&self) -> (r: u32)
        ensures
            r == self@.version,
    {
        self.version
    }
}


/// Reading back the bytes a valid store is saved as gives the same store,
/// and that store passes the checks.
pub proof fn lemma_store_round_trip(m: StoreModel)
    requires
        is_valid(m),
    ensures
        decode(encode(m)) == m,
        is_valid(decode(encode(m))),
{
    let b = encode(m);
    assert(b.subrange(0, 4) =~= be_u32(m.version));
    assert(b.subrange(4, 6) =~= be_u16(m.token));
    assert(b.subrange(6, 8) =~= be_u16(m.crc));
    assert(b.subrange(8, STORE_SIZE as int) =~= m.parameters);
    let v = m.version;
    assert(from_be_u32(be_u32(v)) == v) by {
        assert(v == (v / 0x1000000) * 0x1000000 + ((v / 0x10000) % 0x100) * 0x10000 + ((v / 0x100)
            % 0x100) * 0x100 + v % 0x100);
    }
    assert(from_be_u16(be_u16(m.token)) == m.token);
    assert(from_be_u16(be_u16(m.crc)) == m.crc);
}

/// Saving a store read from bytes gives those bytes back.
pub proof fn lemma_bytes_round_trip(bytes: Seq<u8>)
    requires
        bytes.len() == STORE_SIZE,
    ensures
        encode(decode(bytes)) == bytes,
{
    let m = decode(bytes);
    let v = m.version;
    let (b0, b1, b2, b3) = (bytes[0] as int, bytes[1] as int, bytes[2] as int, bytes[3] as int);
    let sum = b0 * 0x1000000 + b1 * 0x10000 + b2 * 0x100 + b3;
    assert(0 <= sum < 0x1_0000_0000) by {
        assert(0 <= b0 < 0x100 && 0 <= b1 < 0x100 && 0 <= b2 < 0x100 && 0 <= b3 < 0x100);
    }
    assert(bytes.subrange(0, 4)[0] == b0 && bytes.subrange(0, 4)[1] == b1);
    assert(bytes.subrange(0, 4)[2] == b2 && bytes.subrange(0, 4)[3] == b3);
    assert(v == sum);
    assert(v / 0x1000000 == b0 && (v / 0x10000) % 0x100 == b1) by (nonlinear_arith)
        requires
            v == b0 * 0x1000000 + b1 * 0x10000 + b2 * 0x100 + b3,
            0 <= b0 < 0x100 && 0 <= b1 < 0x100 && 0 <= b2 < 0x100 && 0 <= b3 < 0x100,
    ;
    assert((v / 0x100) % 0x100 == b2 && v % 0x100 == b3) by (nonlinear_arith)
        requires
            v == b0 * 0x1000000 + b1 * 0x10000 + b2 * 0x100 + b3,
            0 <= b0 < 0x100 && 0 <= b1 < 0x100 && 0 <= b2 < 0x100 && 0 <= b3 < 0x100,
    ;
    assert(be_u32(v) =~= bytes.subrange(0, 4));
    assert(be_u16(m.token) =~= bytes.subrange(4, 6));
    assert(be_u16(m.crc) =~= bytes.subrange(6, 8));
    assert(encode(m) =~= bytes);
}

} // verus!
