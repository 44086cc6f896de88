use vstd::prelude::*;

verus! {

/// A MIDI channel; `Channel1` is sent as 0 on the wire, `Channel16` as 15.
#[derive(Copy, Clone, Hash, PartialEq, Eq, Structural, PartialOrd, Ord, Debug)]
pub enum Channel {
    Channel1,
    Channel2,
    Channel3,
    Channel4,
    Channel5,
    Channel6,
    Channel7,
    Channel8,
    Channel9,
    Channel10,
    Channel11,
    Channel12,
    Channel13,
    Channel14,
    Channel15,
    Channel16,
}

/// The highest number a channel is sent as.
pub const HIGHEST_CHANNEL_NUMBER: u8 = 15;

#[allow(non_upper_case_globals)]
impl Channel {
    /// The highest channel, `Channel16`.
    pub const HIGHEST_CHANNEL: Channel = Channel::Channel16;

    /// Number the channel is sent as: 0 for `Channel1` up to 15.
    pub open spec fn number(self) -> int {
        match self {
            Channel::Channel1 => 0,
            Channel::Channel2 => 1,
            Channel::Channel3 => 2,
            Channel::Channel4 => 3,
            Channel::Channel5 => 4,
            Channel::Channel6 => 5,
            Channel::Channel7 => 6,
            Channel::Channel8 => 7,
            Channel::Channel9 => 8,
            Channel::Channel10 => 9,
            Channel::Channel11 => 10,
            Channel::Channel12 => 11,
            Channel::Channel13 => 12,
            Channel::Channel14 => 13,
            Channel::Channel15 => 14,
            Channel::Channel16 => 15,
        }
    }

    /// Two channels sent as the same number are the same channel.
    pub proof fn lemma_number_injective(a: Channel, b: Channel)
        requires
            a.number() == b.number(),
        ensures
            a == b,
    {
    }

    /// Channels are numbered in their order: `ChannelK` is sent as `K - 1`.
    pub proof fn lemma_channel_numbers()
        ensures
            Channel::Channel1.number() == 0,
            Channel::Channel2.number() == 1,
            Channel::Channel3.number() == 2,
            Channel::Channel4.number() == 3,
            Channel::Channel5.number() == 4,
            Channel::Channel6.number() == 5,
            Channel::Channel7.number() == 6,
            Channel::Channel8.number() == 7,
            Channel::Channel9.number() == 8,
            Channel::Channel10.number() == 9,
            Channel::Channel11.number() == 10,
            Channel::Channel12.number() == 11,
            Channel::Channel13.number() == 12,
            Channel::Channel14.number() == 13,
            Channel::Channel15.number() == 14,
            Channel::Channel16.number() == 15,
    {
    }

    /// The channel sent as `channel`.
    pub fn from_u8(channel: u8) -> (r: Channel)
        requires
            channel <= HIGHEST_CHANNEL_NUMBER,
        ensures
            r.number() == channel,
    {
        match channel {
            0 => Channel::Channel1,
            1 => Channel::Channel2,
            2 => Channel::Channel3,
            3 => Channel::Channel4,
            4 => Channel::Channel5,
            5 => Channel::Channel6,
            6 => Channel::Channel7,
            7 => Channel::Channel8,
            8 => Channel::Channel9,
            9 => Channel::Channel10,
            10 => Channel::Channel11,
            11 => Channel::Channel12,
            12 => Channel::Channel13,
            13 => Channel::Channel14,
            14 => Channel::Channel15,
            _ => Channel::Channel16,
        }
    }
}

} // verus!
