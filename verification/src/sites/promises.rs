//! What the sites of the catalogue are for, said of the bytes that they write.

use crate::patch;
use crate::patch::laws;
use crate::sites;
use crate::sites::{ActionModel, SiteModel};
use vstd::prelude::*;

verus! {

/// The site of that name writes four bytes that are the number.
pub open spec fn writes_number(name: Seq<char>, n: int) -> bool {
    patch::known_site(name) matches Some(site) && (site.action matches ActionModel::Bytes(b)
        && b.len() == 4 && laws::number(b, 0) == n)
}

/// The site of that name writes one byte.
pub open spec fn writes_byte(name: Seq<char>, x: int) -> bool {
    patch::known_site(name) matches Some(site) && (site.action matches ActionModel::Bytes(b)
        && b.len() == 1 && b[0] == x)
}

/// The site of that name pins the argument of a ctl.
pub open spec fn pins(name: Seq<char>, v: int) -> bool {
    patch::known_site(name) matches Some(site) && (site.action matches ActionModel::CtlArg(x) && x
        == v)
}

proof fn lemma_named(i: int, site: SiteModel)
    requires
        0 <= i < sites::catalogue().len(),
        sites::catalogue()[i] == site,
    ensures
        patch::known_site(site.name) == Some(site),
{
    assert(sites::catalogue().contains(site));
    patch::lemma_known_site(site, site.name);
}

/// Stereo: two channels in both configurations and in every captured frame, at 48 kHz.
pub proof fn law_stereo_sites_ask_for_two_channels()
    ensures
        writes_byte("OpusConfig_Channels"@, 2),
        writes_byte("MultiChannelConfig_Channels"@, 2),
        writes_number("SelectSampleRate_48k"@, 48000),
        patch::known_site("CreateAudioFrame_Channels"@) matches Some(site) && (
        site.action matches ActionModel::Bytes(b) && b.len() == 7 && b.take(3) == seq![
            0x49u8,
            0xC7u8,
            0xC4u8,
        ] && laws::number(b, 3) == 2),
{
    reveal(sites::site_model);
    lemma_named(4, sites::catalogue()[4]);
    lemma_named(5, sites::catalogue()[5]);
    lemma_named(7, sites::catalogue()[7]);
    lemma_named(1, sites::catalogue()[1]);
    let b = sites::signatures::FORCE_TWO_CHANNELS@;
    assert(b.take(3) =~= seq![0x49u8, 0xC7u8, 0xC4u8]);
}

/// The encoder is pinned to no packet loss, the highest complexity and the full band;
/// error correction, silence and variable bitrate are never enabled; and it is told that
/// this is audio, coded by CELT alone.
pub proof fn law_encoder_sites_pin_the_best_settings()
    ensures
        pins("WebRtcOpus_PacketLoss_Zero"@, 0),
        pins("WebRtcOpus_Complexity_Max"@, 10),
        pins("WebRtcOpus_Bandwidth_Fullband"@, 1105),
        writes_number("WebRtcOpus_Fec_Off"@, 0),
        writes_number("WebRtcOpus_Dtx_Off"@, 0),
        writes_number("WebRtcOpus_Cbr_Always"@, 0),
        writes_byte("OpusConfig_Application"@, 1),
        writes_number("CELT_Force"@, 1002),
        writes_number("CELT_DefaultMode"@, 1002),
{
    reveal(sites::site_model);
    lemma_named(24, sites::catalogue()[24]);
    lemma_named(25, sites::catalogue()[25]);
    lemma_named(26, sites::catalogue()[26]);
    lemma_named(27, sites::catalogue()[27]);
    lemma_named(28, sites::catalogue()[28]);
    lemma_named(30, sites::catalogue()[30]);
    lemma_named(11, sites::catalogue()[11]);
    lemma_named(31, sites::catalogue()[31]);
    lemma_named(32, sites::catalogue()[32]);
}

/// A function that is cut short at its entry returns at once: the bytes that are written
/// there end in a `ret`.
pub proof fn law_bypassed_functions_return(i: int)
    requires
        0 <= i < sites::catalogue().len(),
        sites::catalogue()[i].entry,
    ensures
        sites::catalogue()[i].action matches ActionModel::Bytes(b) ==> b.len() > 0 && b[b.len() - 1]
            == 0xC3,
{
    reveal(sites::site_model);
}

/// A site that declares its stock bytes and writes fixed ones in their place writes as
/// many.
pub proof fn law_stock_bytes_are_replaced_one_for_one(i: int)
    requires
        0 <= i < sites::catalogue().len(),
        sites::catalogue()[i].stock.len() > 0,
    ensures
        sites::catalogue()[i].action matches ActionModel::Bytes(b) ==> b.len()
            == sites::catalogue()[i].stock.len(),
        sites::catalogue()[i].action is BitrateImm32 ==> sites::catalogue()[i].stock.len() == 4,
        sites::catalogue()[i].action is BitrateSetter || sites::catalogue()[i].action is CtlArg
            ==> sites::catalogue()[i].stock.len() == 6,
{
    reveal(sites::site_model);
}

} // verus!
