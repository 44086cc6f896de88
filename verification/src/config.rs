use vstd::prelude::*;

verus! {

/// Switches of the module's configuration, held as the low four bits of a
/// byte: bit 0 overdrive, bit 1 modes ordered by brightness, bit 2 mode
/// controlled by the detune CV, bit 3 tonic controlled by the solo CV.
#[derive(Clone, Copy, Default, PartialEq, Eq, Structural, Debug)]
pub struct Config {
    config: u8,
}

/// Whether bit `bit` of `byte` is set.
pub open spec fn bit_set(byte: u8, bit: int) -> bool {
    (byte as int / switch_weight(bit)) % 2 == 1
}

/// 2 to the power `bit`, for the four bits of the configuration byte.
pub open spec fn switch_weight(bit: int) -> int {
    if bit == 0 {
        1
    } else if bit == 1 {
        2
    } else if bit == 2 {
        4
    } else {
        8
    }
}

impl View for Config {
    type V = u8;

    closed spec fn view(&self) -> u8 {
        self.config
    }
}

impl Config {
    #[verifier::type_invariant]
    spec fn only_switch_bits(self) -> bool {
        self.config < 16
    }

    /// Whether the output goes through the overdrive.
    pub fn overdrive(&self) -> (r: bool)
        ensures
            r == bit_set(self@, 0),
    {
        let c = self.config;
        assert((c & 1 != 0) == ((c as int / 1) % 2 == 1)) by (bit_vector);
        self.config & 1 != 0
    }

    /// Whether the scale mode selection orders modes by brightness.
    pub fn modes_ordered_by_brightness(&self) -> (r: bool)
        ensures
            r == bit_set(self@, 1),
    {
        let c = self.config;
        assert((c & 2 != 0) == ((c as int / 2) % 2 == 1)) by (bit_vector);
        assert(1u8 << 1u8 == 2) by (bit_vector);
        self.config & (1 << 1) != 0
    }

    /// Whether the scale mode follows the detune CV.
    pub fn mode_controlled_by_detune_cv(&self) -> (r: bool)
        ensures
            r == bit_set(self@, 2),
    {
        let c = self.config;
        assert((c & 4 != 0) == ((c as int / 4) % 2 == 1)) by (bit_vector);
        assert(1u8 << 2u8 == 4) by (bit_vector);
        self.config & (1 << 2) != 0
    }

    /// Whether the scale tonic follows the solo CV.
    pub fn tonic_controlled_by_solo_cv(&self) -> (r: bool)
        ensures
            r == bit_set(self@, 3),
    {
        let c = self.config;
        assert((c & 8 != 0) == ((c as int / 8) % 2 == 1)) by (bit_vector);
        assert(1u8 << 3u8 == 8) by (bit_vector);
        self.config & (1 << 3) != 0
    }
}

impl From<u8> for Config {
    /// Reads a configuration from a byte, keeping only its four switch bits.
    fn from(other: u8) -> (r: Self)
        ensures
            r@ == other % 16,
    {
        assert(other & 0b1111 == other % 16) by (bit_vector);
        Self { config: other & 0b1111 }
    }
}

impl vstd::std_specs::convert::FromSpecImpl<u8> for Config {
    open spec fn obeys_from_spec() -> bool {
        true
    }

    closed spec fn from_spec(v: u8) -> Self {
        Config { config: v % 16 }
    }
}

impl From<Config> for u8 {
    /// The configuration byte.
    fn from(other: Config) -> (r: Self)
        ensures
            r == other@,
            r < 16,
    {
        proof {
            use_type_invariant(other);
        }
        other.config
    }
}

impl vstd::std_specs::convert::FromSpecImpl<Config> for u8 {
    open spec fn obeys_from_spec() -> bool {
        true
    }

    open spec fn from_spec(v: Config) -> Self {
        v@
    }
}

impl From<Config> for [bool; 8] {
    /// The four switches, in bit order, followed by four unused `false`s.
    fn from(other: Config) -> (r: Self)
        ensures
            forall|i: int| 0 <= i < 4 ==> r[i] == bit_set(other@, i),
            forall|i: int| 4 <= i < 8 ==> !r[i],
    {
        let mut value = [false; 8];
        proof {
            lemma_switches_unique(other@);
        }

        value[0] = other.overdrive();
        value[1] = other.modes_ordered_by_brightness();
        value[2] = other.mode_controlled_by_detune_cv();
        value[3] = other.tonic_controlled_by_solo_cv();

        assert(switches(other@, value));
        value
    }
}

/// Whether `a` lists the four switches of `byte`, in bit order, followed by
/// four `false`s.
pub open spec fn switches(byte: u8, a: [bool; 8]) -> bool {
    &&& forall|i: int| 0 <= i < 4 ==> #[trigger] a[i] == bit_set(byte, i)
    &&& forall|i: int| 4 <= i < 8 ==> !#[trigger] a[i]
}

/// Exactly one array lists the switches of a byte.
pub proof fn lemma_switches_unique(byte: u8)
    ensures
        forall|a: [bool; 8], b: [bool; 8]| switches(byte, a) && switches(byte, b) ==> a == b,
{
    assert forall|a: [bool; 8], b: [bool; 8]| switches(byte, a) && switches(byte, b) implies a == b by {
        broadcast use vstd::array::axiom_array_ext_equal;

        assert forall|i: int| 0 <= i < 8 implies a[i] == b[i] by {
            if i >= 4 {
                assert(!a[i] && !b[i]);
            } else {
                assert(a[i] == bit_set(byte, i) && b[i] == bit_set(byte, i));
            }
        }
        assert(a =~= b);
    }
}

impl vstd::std_specs::convert::FromSpecImpl<Config> for [bool; 8] {
    open spec fn obeys_from_spec() -> bool {
        true
    }

    open spec fn from_spec(v: Config) -> Self {
        choose|a: [bool; 8]| switches(v@, a)
    }
}

/// Writing a configuration to its byte and reading it back gives the same
/// configuration, and reading a byte and writing it back keeps its four
/// switch bits.
pub proof fn lemma_config_byte_round_trip(config: Config, byte: u8)
    requires
        config@ < 16,
    ensures
        <Config as vstd::std_specs::convert::FromSpec<u8>>::from_spec(
            <u8 as vstd::std_specs::convert::FromSpec<Config>>::from_spec(config),
        ) == config,
        <u8 as vstd::std_specs::convert::FromSpec<Config>>::from_spec(
            <Config as vstd::std_specs::convert::FromSpec<u8>>::from_spec(byte),
        ) == byte % 16,
{
}

} // verus!
