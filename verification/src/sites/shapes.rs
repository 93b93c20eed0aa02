//! How the signatures of the catalogue fit the bytes that they are to locate.

use crate::patch;
use crate::sig;
use crate::sig::Tok;
use crate::sites;
use crate::sites::ActionModel;
use crate::sites::{bitrate, encoder, filters, signatures, stereo};
use crate::text;
use crate::text::laws;
use vstd::prelude::*;

verus! {

/// What a signature says of the bytes from `at` on is true of `b`.
#[verifier::opaque]
pub open spec fn fits(src: Seq<char>, at: int, b: Seq<u8>) -> bool {
    let toks = sig::tokens(src);
    &&& 0 <= at && at + b.len() <= toks.len()
    &&& forall|j: int|
        0 <= j < b.len() ==> (#[trigger] toks[at + j] matches Tok::Byte(x) ==> x == b[j])
}

/// A signature names at `at` the request that an encoder ctl makes: `mov esi, request`.
pub open spec fn makes_request(src: Seq<char>, at: int, request: int) -> bool {
    let toks = sig::tokens(src);
    &&& at + 5 <= toks.len()
    &&& toks[at] == Tok::Byte(0xBE)
    &&& toks[at + 1] == Tok::Byte((request % 256) as u8)
    &&& toks[at + 2] == Tok::Byte((request / 256) as u8)
    &&& toks[at + 3] == Tok::Byte(0)
    &&& toks[at + 4] == Tok::Byte(0)
}

/// Word `k` of a signature that is written two characters to a word.
spec fn cell_at(s: Seq<char>, k: int) -> Seq<char> {
    seq![s[3 * k], s[3 * k + 1]]
}

proof fn lemma_word_at(s: Seq<char>, k: int, j: int)
    requires
        sig::regular_from(s, k),
        k <= j,
        3 * j + 2 <= s.len(),
    ensures
        text::words(s.skip(3 * k)).len() > j - k,
        text::words(s.skip(3 * k))[j - k] == cell_at(s, j),
    decreases s.len() - 3 * k,
{
    let t = s.skip(3 * k);
    let w = cell_at(s, k);
    assert(laws::is_word(w)) by {
        assert(sig::cell(s[3 * k], s[3 * k + 1]));
        assert forall|i: int| 0 <= i < w.len() implies !text::is_white_space(#[trigger] w[i]) by {}
    }
    if 3 * k + 2 == s.len() {
        let none = Seq::<char>::empty();
        assert(t =~= w + none);
        laws::lemma_first_word(w, none);
        assert(j == k);
    } else {
        let rest = s.skip(3 * (k + 1));
        let behind = seq![' '] + rest;
        assert(s[3 * k + 2] == ' ');
        assert(t =~= w + behind);
        assert(text::is_white_space(' '));
        laws::lemma_first_word(w, behind);
        assert(behind.drop_first() =~= rest);
        assert(text::words(behind) == text::words(rest));
        if j > k {
            lemma_word_at(s, k + 1, j);
        }
    }
}

/// Token `k` of a signature is what its two characters say.
proof fn lemma_token_at(s: Seq<char>, n: int, k: int)
    requires
        sig::regular(s, n),
        0 <= k < n,
    ensures
        sig::tokens(s).len() == n,
        sig::tokens(s)[k] == sig::token(cell_at(s, k))->0,
{
    lemma_word_at(s, 0, k);
    assert(s.skip(0) =~= s);
    sig::lemma_regular(s, n);
}

/// Token `k` is a wildcard.
proof fn lemma_open(s: Seq<char>, n: int, k: int)
    requires
        sig::regular(s, n),
        0 <= k < n,
        s[3 * k] == '?',
        s[3 * k + 1] == '?',
    ensures
        sig::tokens(s).len() == n,
        sig::tokens(s)[k] is Any,
{
    lemma_token_at(s, n, k);
}

/// Token `k` is the byte that its two digits denote.
proof fn lemma_byte(s: Seq<char>, n: int, k: int, x: u8)
    requires
        sig::regular(s, n),
        0 <= k < n,
        sig::hex_digit(s[3 * k]) == Some(x as int / 16),
        sig::hex_digit(s[3 * k + 1]) == Some(x as int % 16),
    ensures
        sig::tokens(s).len() == n,
        sig::tokens(s)[k] == Tok::Byte(x),
{
    let w = cell_at(s, k);
    lemma_token_at(s, n, k);
    reveal_with_fuel(sig::hex_value, 3);
    assert(w.drop_last() =~= seq![w[0]]);
    assert(w.drop_last().drop_last() =~= Seq::<char>::empty());
    assert(sig::hex_value(w) == Some(x as int));
    assert(text::without_plus(w) == w);
    assert(w != seq!['?', '?']) by {
        assert(w[0] != seq!['?', '?'][0]);
    }
}

proof fn lemma_commit_audio_codec_stereo_check()
    ensures
        sig::tokens(stereo::SIG_COMMIT_AUDIO_CODEC_STEREO_CHECK@).len() == 25,
        sig::tokens(stereo::SIG_COMMIT_AUDIO_CODEC_STEREO_CHECK@)[6] is Any,
{
    let s = stereo::SIG_COMMIT_AUDIO_CODEC_STEREO_CHECK@;
    reveal_strlit(
        "83 BB F0 00 00 00 ?? 48 8D 05 ?? ?? ?? ?? 48 8D 15 ?? ?? ?? ?? 48 0F 43 D0",
    );
    assert(sig::regular(s, 25)) by {
        reveal_with_fuel(sig::regular_from, 26);
    }
    lemma_open(s, 25, 6);
}

proof fn lemma_opus_config_ctor()
    ensures
        sig::tokens(signatures::OPUS_CONFIG_CTOR@).len() == 43,
        sig::tokens(signatures::OPUS_CONFIG_CTOR@)[21] is Any,
        sig::tokens(signatures::OPUS_CONFIG_CTOR@)[27] == Tok::Byte(0x00),
        sig::tokens(signatures::OPUS_CONFIG_CTOR@)[31] is Any,
        sig::tokens(signatures::OPUS_CONFIG_CTOR@)[32] is Any,
        sig::tokens(signatures::OPUS_CONFIG_CTOR@)[33] is Any,
        sig::tokens(signatures::OPUS_CONFIG_CTOR@)[34] == Tok::Byte(0x00),
{
    let s = signatures::OPUS_CONFIG_CTOR@;
    reveal_strlit(
        "55 48 89 E5 48 B8 ?? 00 00 00 80 BB 00 00 48 89 07 48 C7 47 08 ?? 00 00 00 48 B8 00 00 00 00 ?? ?? ?? 00 48 89 47 10 C6 47 18 ??",
    );
    assert(sig::regular(s, 43)) by {
        reveal_with_fuel(sig::regular_from, 44);
    }
    lemma_open(s, 43, 21);
    lemma_byte(s, 43, 27, 0x00);
    lemma_open(s, 43, 31);
    lemma_open(s, 43, 32);
    lemma_open(s, 43, 33);
    lemma_byte(s, 43, 34, 0x00);
}

proof fn lemma_opus_config_ctor_inlined()
    ensures
        sig::tokens(signatures::OPUS_CONFIG_CTOR_INLINED@).len() == 52,
        sig::tokens(signatures::OPUS_CONFIG_CTOR_INLINED@)[24] is Any,
        sig::tokens(signatures::OPUS_CONFIG_CTOR_INLINED@)[30] == Tok::Byte(0x00),
        sig::tokens(signatures::OPUS_CONFIG_CTOR_INLINED@)[34] is Any,
        sig::tokens(signatures::OPUS_CONFIG_CTOR_INLINED@)[35] is Any,
        sig::tokens(signatures::OPUS_CONFIG_CTOR_INLINED@)[36] is Any,
        sig::tokens(signatures::OPUS_CONFIG_CTOR_INLINED@)[37] == Tok::Byte(0x00),
{
    let s = signatures::OPUS_CONFIG_CTOR_INLINED@;
    reveal_strlit(
        "48 B8 ?? 00 00 00 80 BB 00 00 48 89 85 ?? ?? ?? ?? 48 C7 85 ?? ?? ?? ?? ?? 00 00 00 48 B8 00 00 00 00 ?? ?? ?? 00 48 89 85 ?? ?? ?? ?? C6 85 ?? ?? ?? ?? ??",
    );
    assert(sig::regular(s, 52)) by {
        reveal_with_fuel(sig::regular_from, 53);
    }
    lemma_open(s, 52, 24);
    lemma_byte(s, 52, 30, 0x00);
    lemma_open(s, 52, 34);
    lemma_open(s, 52, 35);
    lemma_open(s, 52, 36);
    lemma_byte(s, 52, 37, 0x00);
}

proof fn lemma_multichannel_ctor()
    ensures
        sig::tokens(signatures::MULTICHANNEL_CTOR@).len() == 38,
        sig::tokens(signatures::MULTICHANNEL_CTOR@)[14] is Any,
        sig::tokens(signatures::MULTICHANNEL_CTOR@)[24] is Any,
        sig::tokens(signatures::MULTICHANNEL_CTOR@)[25] is Any,
        sig::tokens(signatures::MULTICHANNEL_CTOR@)[26] is Any,
        sig::tokens(signatures::MULTICHANNEL_CTOR@)[27] == Tok::Byte(0x00),
{
    let s = signatures::MULTICHANNEL_CTOR@;
    reveal_strlit(
        "55 48 89 E5 C7 07 14 00 00 00 48 C7 47 08 ?? 00 00 00 48 B8 00 00 00 00 ?? ?? ?? 00 48 89 47 10 66 C7 47 18 00 00",
    );
    assert(sig::regular(s, 38)) by {
        reveal_with_fuel(sig::regular_from, 39);
    }
    lemma_open(s, 38, 14);
    lemma_open(s, 38, 24);
    lemma_open(s, 38, 25);
    lemma_open(s, 38, 26);
    lemma_byte(s, 38, 27, 0x00);
}

proof fn lemma_channel_controller_force_stereo()
    ensures
        sig::tokens(stereo::SIG_CHANNEL_CONTROLLER_FORCE_STEREO@).len() == 42,
        sig::tokens(stereo::SIG_CHANNEL_CONTROLLER_FORCE_STEREO@)[38] is Any,
        sig::tokens(stereo::SIG_CHANNEL_CONTROLLER_FORCE_STEREO@)[39] is Any,
{
    let s = stereo::SIG_CHANNEL_CONTROLLER_FORCE_STEREO@;
    reveal_strlit(
        "48 8B 47 20 80 7F 2C 01 75 45 48 83 F8 01 74 1A 48 83 F8 02 75 39 8B 57 28 B9 01 00 00 00 B8 02 00 00 00 3B 57 1C ?? ?? EB 25",
    );
    assert(sig::regular(s, 42)) by {
        reveal_with_fuel(sig::regular_from, 43);
    }
    lemma_open(s, 42, 38);
    lemma_open(s, 42, 39);
}

proof fn lemma_select_sample_rate_48k_a()
    ensures
        sig::tokens(stereo::SIG_SELECT_SAMPLE_RATE_48K_A@).len() == 22,
        sig::tokens(stereo::SIG_SELECT_SAMPLE_RATE_48K_A@)[14] is Any,
        sig::tokens(stereo::SIG_SELECT_SAMPLE_RATE_48K_A@)[15] is Any,
        sig::tokens(stereo::SIG_SELECT_SAMPLE_RATE_48K_A@)[16] is Any,
        sig::tokens(stereo::SIG_SELECT_SAMPLE_RATE_48K_A@)[17] is Any,
{
    let s = stereo::SIG_SELECT_SAMPLE_RATE_48K_A@;
    reveal_strlit(
        "41 81 FF 01 7D 00 00 B8 80 BB 00 00 41 BD ?? ?? ?? ?? 44 0F 43 E8",
    );
    assert(sig::regular(s, 22)) by {
        reveal_with_fuel(sig::regular_from, 23);
    }
    lemma_open(s, 22, 14);
    lemma_open(s, 22, 15);
    lemma_open(s, 22, 16);
    lemma_open(s, 22, 17);
}

proof fn lemma_select_sample_rate_48k_b()
    ensures
        sig::tokens(stereo::SIG_SELECT_SAMPLE_RATE_48K_B@).len() == 20,
        sig::tokens(stereo::SIG_SELECT_SAMPLE_RATE_48K_B@)[13] is Any,
        sig::tokens(stereo::SIG_SELECT_SAMPLE_RATE_48K_B@)[14] is Any,
        sig::tokens(stereo::SIG_SELECT_SAMPLE_RATE_48K_B@)[15] is Any,
        sig::tokens(stereo::SIG_SELECT_SAMPLE_RATE_48K_B@)[16] is Any,
{
    let s = stereo::SIG_SELECT_SAMPLE_RATE_48K_B@;
    reveal_strlit(
        "41 81 FF 01 7D 00 00 BA 80 BB 00 00 B9 ?? ?? ?? ?? 0F 43 CA",
    );
    assert(sig::regular(s, 20)) by {
        reveal_with_fuel(sig::regular_from, 21);
    }
    lemma_open(s, 20, 13);
    lemma_open(s, 20, 14);
    lemma_open(s, 20, 15);
    lemma_open(s, 20, 16);
}

proof fn lemma_web_rtc_opus_set_bit_rate()
    ensures
        sig::tokens(bitrate::SIG_WEB_RTC_OPUS_SET_BIT_RATE@).len() == 25,
        sig::tokens(bitrate::SIG_WEB_RTC_OPUS_SET_BIT_RATE@)[0] is Any,
        sig::tokens(bitrate::SIG_WEB_RTC_OPUS_SET_BIT_RATE@)[1] is Any,
        sig::tokens(bitrate::SIG_WEB_RTC_OPUS_SET_BIT_RATE@)[2] is Any,
        sig::tokens(bitrate::SIG_WEB_RTC_OPUS_SET_BIT_RATE@)[3] is Any,
        sig::tokens(bitrate::SIG_WEB_RTC_OPUS_SET_BIT_RATE@)[4] is Any,
        sig::tokens(bitrate::SIG_WEB_RTC_OPUS_SET_BIT_RATE@)[5] is Any,
        sig::tokens(bitrate::SIG_WEB_RTC_OPUS_SET_BIT_RATE@)[17] == Tok::Byte(0xBE),
        sig::tokens(bitrate::SIG_WEB_RTC_OPUS_SET_BIT_RATE@)[18] == Tok::Byte(0xA2),
        sig::tokens(bitrate::SIG_WEB_RTC_OPUS_SET_BIT_RATE@)[19] == Tok::Byte(0x0F),
        sig::tokens(bitrate::SIG_WEB_RTC_OPUS_SET_BIT_RATE@)[20] == Tok::Byte(0x00),
        sig::tokens(bitrate::SIG_WEB_RTC_OPUS_SET_BIT_RATE@)[21] == Tok::Byte(0x00),
{
    let s = bitrate::SIG_WEB_RTC_OPUS_SET_BIT_RATE@;
    reveal_strlit(
        "?? ?? ?? ?? ?? ?? 48 8B 07 48 85 C0 74 ?? 48 89 C7 BE A2 0F 00 00 31 C0 E8",
    );
    assert(sig::regular(s, 25)) by {
        reveal_with_fuel(sig::regular_from, 26);
    }
    lemma_open(s, 25, 0);
    lemma_open(s, 25, 1);
    lemma_open(s, 25, 2);
    lemma_open(s, 25, 3);
    lemma_open(s, 25, 4);
    lemma_open(s, 25, 5);
    lemma_byte(s, 25, 17, 0xBE);
    lemma_byte(s, 25, 18, 0xA2);
    lemma_byte(s, 25, 19, 0x0F);
    lemma_byte(s, 25, 20, 0x00);
    lemma_byte(s, 25, 21, 0x00);
}

proof fn lemma_web_rtc_opus_packet_loss_zero()
    ensures
        sig::tokens(encoder::SIG_WEB_RTC_OPUS_PACKET_LOSS_ZERO@).len() == 25,
        sig::tokens(encoder::SIG_WEB_RTC_OPUS_PACKET_LOSS_ZERO@)[0] is Any,
        sig::tokens(encoder::SIG_WEB_RTC_OPUS_PACKET_LOSS_ZERO@)[1] is Any,
        sig::tokens(encoder::SIG_WEB_RTC_OPUS_PACKET_LOSS_ZERO@)[2] is Any,
        sig::tokens(encoder::SIG_WEB_RTC_OPUS_PACKET_LOSS_ZERO@)[3] is Any,
        sig::tokens(encoder::SIG_WEB_RTC_OPUS_PACKET_LOSS_ZERO@)[4] is Any,
        sig::tokens(encoder::SIG_WEB_RTC_OPUS_PACKET_LOSS_ZERO@)[5] is Any,
        sig::tokens(encoder::SIG_WEB_RTC_OPUS_PACKET_LOSS_ZERO@)[17] == Tok::Byte(0xBE),
        sig::tokens(encoder::SIG_WEB_RTC_OPUS_PACKET_LOSS_ZERO@)[18] == Tok::Byte(0xAE),
        sig::tokens(encoder::SIG_WEB_RTC_OPUS_PACKET_LOSS_ZERO@)[19] == Tok::Byte(0x0F),
        sig::tokens(encoder::SIG_WEB_RTC_OPUS_PACKET_LOSS_ZERO@)[20] == Tok::Byte(0x00),
        sig::tokens(encoder::SIG_WEB_RTC_OPUS_PACKET_LOSS_ZERO@)[21] == Tok::Byte(0x00),
{
    let s = encoder::SIG_WEB_RTC_OPUS_PACKET_LOSS_ZERO@;
    reveal_strlit(
        "?? ?? ?? ?? ?? ?? 48 8B 07 48 85 C0 74 ?? 48 89 C7 BE AE 0F 00 00 31 C0 E8",
    );
    assert(sig::regular(s, 25)) by {
        reveal_with_fuel(sig::regular_from, 26);
    }
    lemma_open(s, 25, 0);
    lemma_open(s, 25, 1);
    lemma_open(s, 25, 2);
    lemma_open(s, 25, 3);
    lemma_open(s, 25, 4);
    lemma_open(s, 25, 5);
    lemma_byte(s, 25, 17, 0xBE);
    lemma_byte(s, 25, 18, 0xAE);
    lemma_byte(s, 25, 19, 0x0F);
    lemma_byte(s, 25, 20, 0x00);
    lemma_byte(s, 25, 21, 0x00);
}

proof fn lemma_web_rtc_opus_complexity_max()
    ensures
        sig::tokens(encoder::SIG_WEB_RTC_OPUS_COMPLEXITY_MAX@).len() == 25,
        sig::tokens(encoder::SIG_WEB_RTC_OPUS_COMPLEXITY_MAX@)[0] is Any,
        sig::tokens(encoder::SIG_WEB_RTC_OPUS_COMPLEXITY_MAX@)[1] is Any,
        sig::tokens(encoder::SIG_WEB_RTC_OPUS_COMPLEXITY_MAX@)[2] is Any,
        sig::tokens(encoder::SIG_WEB_RTC_OPUS_COMPLEXITY_MAX@)[3] is Any,
        sig::tokens(encoder::SIG_WEB_RTC_OPUS_COMPLEXITY_MAX@)[4] is Any,
        sig::tokens(encoder::SIG_WEB_RTC_OPUS_COMPLEXITY_MAX@)[5] is Any,
        sig::tokens(encoder::SIG_WEB_RTC_OPUS_COMPLEXITY_MAX@)[17] == Tok::Byte(0xBE),
        sig::tokens(encoder::SIG_WEB_RTC_OPUS_COMPLEXITY_MAX@)[18] == Tok::Byte(0xAA),
        sig::tokens(encoder::SIG_WEB_RTC_OPUS_COMPLEXITY_MAX@)[19] == Tok::Byte(0x0F),
        sig::tokens(encoder::SIG_WEB_RTC_OPUS_COMPLEXITY_MAX@)[20] == Tok::Byte(0x00),
        sig::tokens(encoder::SIG_WEB_RTC_OPUS_COMPLEXITY_MAX@)[21] == Tok::Byte(0x00),
{
    let s = encoder::SIG_WEB_RTC_OPUS_COMPLEXITY_MAX@;
    reveal_strlit(
        "?? ?? ?? ?? ?? ?? 48 8B 07 48 85 C0 74 ?? 48 89 C7 BE AA 0F 00 00 31 C0 E8",
    );
    assert(sig::regular(s, 25)) by {
        reveal_with_fuel(sig::regular_from, 26);
    }
    lemma_open(s, 25, 0);
    lemma_open(s, 25, 1);
    lemma_open(s, 25, 2);
    lemma_open(s, 25, 3);
    lemma_open(s, 25, 4);
    lemma_open(s, 25, 5);
    lemma_byte(s, 25, 17, 0xBE);
    lemma_byte(s, 25, 18, 0xAA);
    lemma_byte(s, 25, 19, 0x0F);
    lemma_byte(s, 25, 20, 0x00);
    lemma_byte(s, 25, 21, 0x00);
}

proof fn lemma_web_rtc_opus_bandwidth_fullband()
    ensures
        sig::tokens(encoder::SIG_WEB_RTC_OPUS_BANDWIDTH_FULLBAND@).len() == 25,
        sig::tokens(encoder::SIG_WEB_RTC_OPUS_BANDWIDTH_FULLBAND@)[0] is Any,
        sig::tokens(encoder::SIG_WEB_RTC_OPUS_BANDWIDTH_FULLBAND@)[1] is Any,
        sig::tokens(encoder::SIG_WEB_RTC_OPUS_BANDWIDTH_FULLBAND@)[2] is Any,
        sig::tokens(encoder::SIG_WEB_RTC_OPUS_BANDWIDTH_FULLBAND@)[3] is Any,
        sig::tokens(encoder::SIG_WEB_RTC_OPUS_BANDWIDTH_FULLBAND@)[4] is Any,
        sig::tokens(encoder::SIG_WEB_RTC_OPUS_BANDWIDTH_FULLBAND@)[5] is Any,
        sig::tokens(encoder::SIG_WEB_RTC_OPUS_BANDWIDTH_FULLBAND@)[17] == Tok::Byte(0xBE),
        sig::tokens(encoder::SIG_WEB_RTC_OPUS_BANDWIDTH_FULLBAND@)[18] == Tok::Byte(0xA8),
        sig::tokens(encoder::SIG_WEB_RTC_OPUS_BANDWIDTH_FULLBAND@)[19] == Tok::Byte(0x0F),
        sig::tokens(encoder::SIG_WEB_RTC_OPUS_BANDWIDTH_FULLBAND@)[20] == Tok::Byte(0x00),
        sig::tokens(encoder::SIG_WEB_RTC_OPUS_BANDWIDTH_FULLBAND@)[21] == Tok::Byte(0x00),
{
    let s = encoder::SIG_WEB_RTC_OPUS_BANDWIDTH_FULLBAND@;
    reveal_strlit(
        "?? ?? ?? ?? ?? ?? 48 8B 07 48 85 C0 74 ?? 48 89 C7 BE A8 0F 00 00 31 C0 E8",
    );
    assert(sig::regular(s, 25)) by {
        reveal_with_fuel(sig::regular_from, 26);
    }
    lemma_open(s, 25, 0);
    lemma_open(s, 25, 1);
    lemma_open(s, 25, 2);
    lemma_open(s, 25, 3);
    lemma_open(s, 25, 4);
    lemma_open(s, 25, 5);
    lemma_byte(s, 25, 17, 0xBE);
    lemma_byte(s, 25, 18, 0xA8);
    lemma_byte(s, 25, 19, 0x0F);
    lemma_byte(s, 25, 20, 0x00);
    lemma_byte(s, 25, 21, 0x00);
}

proof fn lemma_web_rtc_opus_fec_off()
    ensures
        sig::tokens(encoder::SIG_WEB_RTC_OPUS_FEC_OFF@).len() == 13,
        sig::tokens(encoder::SIG_WEB_RTC_OPUS_FEC_OFF@)[0] == Tok::Byte(0xBE),
        sig::tokens(encoder::SIG_WEB_RTC_OPUS_FEC_OFF@)[1] == Tok::Byte(0xAC),
        sig::tokens(encoder::SIG_WEB_RTC_OPUS_FEC_OFF@)[2] == Tok::Byte(0x0F),
        sig::tokens(encoder::SIG_WEB_RTC_OPUS_FEC_OFF@)[3] == Tok::Byte(0x00),
        sig::tokens(encoder::SIG_WEB_RTC_OPUS_FEC_OFF@)[4] == Tok::Byte(0x00),
        sig::tokens(encoder::SIG_WEB_RTC_OPUS_FEC_OFF@)[6] is Any,
        sig::tokens(encoder::SIG_WEB_RTC_OPUS_FEC_OFF@)[7] == Tok::Byte(0x00),
        sig::tokens(encoder::SIG_WEB_RTC_OPUS_FEC_OFF@)[8] == Tok::Byte(0x00),
        sig::tokens(encoder::SIG_WEB_RTC_OPUS_FEC_OFF@)[9] == Tok::Byte(0x00),
{
    let s = encoder::SIG_WEB_RTC_OPUS_FEC_OFF@;
    reveal_strlit(
        "BE AC 0F 00 00 BA ?? 00 00 00 31 C0 E8",
    );
    assert(sig::regular(s, 13)) by {
        reveal_with_fuel(sig::regular_from, 14);
    }
    lemma_byte(s, 13, 0, 0xBE);
    lemma_byte(s, 13, 1, 0xAC);
    lemma_byte(s, 13, 2, 0x0F);
    lemma_byte(s, 13, 3, 0x00);
    lemma_byte(s, 13, 4, 0x00);
    lemma_open(s, 13, 6);
    lemma_byte(s, 13, 7, 0x00);
    lemma_byte(s, 13, 8, 0x00);
    lemma_byte(s, 13, 9, 0x00);
}

proof fn lemma_web_rtc_opus_dtx_off()
    ensures
        sig::tokens(encoder::SIG_WEB_RTC_OPUS_DTX_OFF@).len() == 13,
        sig::tokens(encoder::SIG_WEB_RTC_OPUS_DTX_OFF@)[0] == Tok::Byte(0xBE),
        sig::tokens(encoder::SIG_WEB_RTC_OPUS_DTX_OFF@)[1] == Tok::Byte(0xB0),
        sig::tokens(encoder::SIG_WEB_RTC_OPUS_DTX_OFF@)[2] == Tok::Byte(0x0F),
        sig::tokens(encoder::SIG_WEB_RTC_OPUS_DTX_OFF@)[3] == Tok::Byte(0x00),
        sig::tokens(encoder::SIG_WEB_RTC_OPUS_DTX_OFF@)[4] == Tok::Byte(0x00),
        sig::tokens(encoder::SIG_WEB_RTC_OPUS_DTX_OFF@)[6] is Any,
        sig::tokens(encoder::SIG_WEB_RTC_OPUS_DTX_OFF@)[7] == Tok::Byte(0x00),
        sig::tokens(encoder::SIG_WEB_RTC_OPUS_DTX_OFF@)[8] == Tok::Byte(0x00),
        sig::tokens(encoder::SIG_WEB_RTC_OPUS_DTX_OFF@)[9] == Tok::Byte(0x00),
{
    let s = encoder::SIG_WEB_RTC_OPUS_DTX_OFF@;
    reveal_strlit(
        "BE B0 0F 00 00 BA ?? 00 00 00 31 C0 E8",
    );
    assert(sig::regular(s, 13)) by {
        reveal_with_fuel(sig::regular_from, 14);
    }
    lemma_byte(s, 13, 0, 0xBE);
    lemma_byte(s, 13, 1, 0xB0);
    lemma_byte(s, 13, 2, 0x0F);
    lemma_byte(s, 13, 3, 0x00);
    lemma_byte(s, 13, 4, 0x00);
    lemma_open(s, 13, 6);
    lemma_byte(s, 13, 7, 0x00);
    lemma_byte(s, 13, 8, 0x00);
    lemma_byte(s, 13, 9, 0x00);
}

proof fn lemma_web_rtc_opus_cbr_always()
    ensures
        sig::tokens(encoder::SIG_WEB_RTC_OPUS_CBR_ALWAYS@).len() == 13,
        sig::tokens(encoder::SIG_WEB_RTC_OPUS_CBR_ALWAYS@)[0] == Tok::Byte(0xBE),
        sig::tokens(encoder::SIG_WEB_RTC_OPUS_CBR_ALWAYS@)[1] == Tok::Byte(0xA6),
        sig::tokens(encoder::SIG_WEB_RTC_OPUS_CBR_ALWAYS@)[2] == Tok::Byte(0x0F),
        sig::tokens(encoder::SIG_WEB_RTC_OPUS_CBR_ALWAYS@)[3] == Tok::Byte(0x00),
        sig::tokens(encoder::SIG_WEB_RTC_OPUS_CBR_ALWAYS@)[4] == Tok::Byte(0x00),
        sig::tokens(encoder::SIG_WEB_RTC_OPUS_CBR_ALWAYS@)[6] is Any,
        sig::tokens(encoder::SIG_WEB_RTC_OPUS_CBR_ALWAYS@)[7] == Tok::Byte(0x00),
        sig::tokens(encoder::SIG_WEB_RTC_OPUS_CBR_ALWAYS@)[8] == Tok::Byte(0x00),
        sig::tokens(encoder::SIG_WEB_RTC_OPUS_CBR_ALWAYS@)[9] == Tok::Byte(0x00),
{
    let s = encoder::SIG_WEB_RTC_OPUS_CBR_ALWAYS@;
    reveal_strlit(
        "BE A6 0F 00 00 BA ?? 00 00 00 31 C0 E8",
    );
    assert(sig::regular(s, 13)) by {
        reveal_with_fuel(sig::regular_from, 14);
    }
    lemma_byte(s, 13, 0, 0xBE);
    lemma_byte(s, 13, 1, 0xA6);
    lemma_byte(s, 13, 2, 0x0F);
    lemma_byte(s, 13, 3, 0x00);
    lemma_byte(s, 13, 4, 0x00);
    lemma_open(s, 13, 6);
    lemma_byte(s, 13, 7, 0x00);
    lemma_byte(s, 13, 8, 0x00);
    lemma_byte(s, 13, 9, 0x00);
}

proof fn lemma_celt_force()
    ensures
        sig::tokens(filters::SIG_CELT_FORCE@).len() == 25,
        sig::tokens(filters::SIG_CELT_FORCE@)[7] is Any,
        sig::tokens(filters::SIG_CELT_FORCE@)[8] is Any,
        sig::tokens(filters::SIG_CELT_FORCE@)[9] is Any,
        sig::tokens(filters::SIG_CELT_FORCE@)[10] is Any,
{
    let s = filters::SIG_CELT_FORCE@;
    reveal_strlit(
        "48 C7 83 ?? 00 00 00 ?? ?? ?? ?? 48 63 83 ?? 00 00 00 48 69 C8 1F 85 EB 51",
    );
    assert(sig::regular(s, 25)) by {
        reveal_with_fuel(sig::regular_from, 26);
    }
    lemma_open(s, 25, 7);
    lemma_open(s, 25, 8);
    lemma_open(s, 25, 9);
    lemma_open(s, 25, 10);
}

proof fn lemma_celt_default_mode()
    ensures
        sig::tokens(filters::SIG_CELT_DEFAULT_MODE@).len() == 30,
        sig::tokens(filters::SIG_CELT_DEFAULT_MODE@)[16] is Any,
        sig::tokens(filters::SIG_CELT_DEFAULT_MODE@)[17] is Any,
        sig::tokens(filters::SIG_CELT_DEFAULT_MODE@)[18] == Tok::Byte(0x00),
        sig::tokens(filters::SIG_CELT_DEFAULT_MODE@)[19] == Tok::Byte(0x00),
{
    let s = filters::SIG_CELT_DEFAULT_MODE@;
    reveal_strlit(
        "C7 83 ?? 37 00 00 01 00 00 00 C7 83 ?? 37 00 00 ?? ?? 00 00 C7 83 ?? 37 00 00 51 04 00 00",
    );
    assert(sig::regular(s, 30)) by {
        reveal_with_fuel(sig::regular_from, 31);
    }
    lemma_open(s, 30, 16);
    lemma_open(s, 30, 17);
    lemma_byte(s, 30, 18, 0x00);
    lemma_byte(s, 30, 19, 0x00);
}

proof fn lemma_fits_commit_audio_codec_stereo_check()
    ensures
        fits(stereo::SIG_COMMIT_AUDIO_CODEC_STEREO_CHECK@, 6, seq![0x02u8]),
        fits(stereo::SIG_COMMIT_AUDIO_CODEC_STEREO_CHECK@, 6, seq![0x00u8]),
{
    reveal(fits);
    lemma_commit_audio_codec_stereo_check();
}

proof fn lemma_fits_opus_config_channels()
    ensures
        fits(signatures::OPUS_CONFIG_CTOR@, 21, seq![0x01u8]),
        fits(signatures::OPUS_CONFIG_CTOR@, 21, seq![0x02u8]),
        fits(signatures::OPUS_CONFIG_CTOR_INLINED@, 24, seq![0x01u8]),
        fits(signatures::OPUS_CONFIG_CTOR_INLINED@, 24, seq![0x02u8]),
{
    reveal(fits);
    lemma_opus_config_ctor();
    lemma_opus_config_ctor_inlined();
}

proof fn lemma_fits_multi_channel_config_channels()
    ensures
        fits(signatures::MULTICHANNEL_CTOR@, 14, seq![0x01u8]),
        fits(signatures::MULTICHANNEL_CTOR@, 14, seq![0x02u8]),
{
    reveal(fits);
    lemma_multichannel_ctor();
}

proof fn lemma_fits_channel_controller_force_stereo()
    ensures
        fits(stereo::SIG_CHANNEL_CONTROLLER_FORCE_STEREO@, 38, seq![0x7Eu8, 0x20u8]),
        fits(stereo::SIG_CHANNEL_CONTROLLER_FORCE_STEREO@, 38, seq![0x90u8, 0x90u8]),
{
    reveal(fits);
    lemma_channel_controller_force_stereo();
}

proof fn lemma_fits_select_sample_rate_48k()
    ensures
        fits(stereo::SIG_SELECT_SAMPLE_RATE_48K_A@, 14, seq![0x00u8, 0x7Du8, 0x00u8, 0x00u8]),
        fits(stereo::SIG_SELECT_SAMPLE_RATE_48K_A@, 14, seq![0x80u8, 0xBBu8, 0x00u8, 0x00u8]),
        fits(stereo::SIG_SELECT_SAMPLE_RATE_48K_B@, 13, seq![0x00u8, 0x7Du8, 0x00u8, 0x00u8]),
        fits(stereo::SIG_SELECT_SAMPLE_RATE_48K_B@, 13, seq![0x80u8, 0xBBu8, 0x00u8, 0x00u8]),
{
    reveal(fits);
    lemma_select_sample_rate_48k_a();
    lemma_select_sample_rate_48k_b();
}

proof fn lemma_fits_opus_config_bitrate()
    ensures
        fits(signatures::OPUS_CONFIG_CTOR@, 31, seq![0x00u8, 0x7Du8, 0x00u8, 0x00u8]),
        fits(signatures::OPUS_CONFIG_CTOR_INLINED@, 34, seq![0x00u8, 0x7Du8, 0x00u8, 0x00u8]),
{
    reveal(fits);
    lemma_opus_config_ctor();
    lemma_opus_config_ctor_inlined();
}

proof fn lemma_fits_multi_channel_config_bitrate()
    ensures
        fits(signatures::MULTICHANNEL_CTOR@, 24, seq![0x00u8, 0x7Du8, 0x00u8, 0x00u8]),
{
    reveal(fits);
    lemma_multichannel_ctor();
}

proof fn lemma_fits_web_rtc_opus_set_bit_rate()
    ensures
        fits(bitrate::SIG_WEB_RTC_OPUS_SET_BIT_RATE@, 0, seq![0x55u8, 0x48u8, 0x89u8, 0xE5u8, 0x89u8, 0xF2u8]),
{
    reveal(fits);
    lemma_web_rtc_opus_set_bit_rate();
}

proof fn lemma_fits_opus_config_application()
    ensures
        fits(signatures::OPUS_CONFIG_CTOR@, 27, seq![0x00u8]),
        fits(signatures::OPUS_CONFIG_CTOR_INLINED@, 30, seq![0x00u8]),
{
    reveal(fits);
    lemma_opus_config_ctor();
    lemma_opus_config_ctor_inlined();
}

proof fn lemma_fits_web_rtc_opus_packet_loss_zero()
    ensures
        fits(encoder::SIG_WEB_RTC_OPUS_PACKET_LOSS_ZERO@, 0, seq![0x55u8, 0x48u8, 0x89u8, 0xE5u8, 0x89u8, 0xF2u8]),
{
    reveal(fits);
    lemma_web_rtc_opus_packet_loss_zero();
}

proof fn lemma_fits_web_rtc_opus_complexity_max()
    ensures
        fits(encoder::SIG_WEB_RTC_OPUS_COMPLEXITY_MAX@, 0, seq![0x55u8, 0x48u8, 0x89u8, 0xE5u8, 0x89u8, 0xF2u8]),
{
    reveal(fits);
    lemma_web_rtc_opus_complexity_max();
}

proof fn lemma_fits_web_rtc_opus_bandwidth_fullband()
    ensures
        fits(encoder::SIG_WEB_RTC_OPUS_BANDWIDTH_FULLBAND@, 0, seq![0x55u8, 0x48u8, 0x89u8, 0xE5u8, 0x89u8, 0xF2u8]),
{
    reveal(fits);
    lemma_web_rtc_opus_bandwidth_fullband();
}

proof fn lemma_fits_web_rtc_opus_fec_off()
    ensures
        fits(encoder::SIG_WEB_RTC_OPUS_FEC_OFF@, 6, seq![0x01u8, 0x00u8, 0x00u8, 0x00u8]),
        fits(encoder::SIG_WEB_RTC_OPUS_FEC_OFF@, 6, seq![0x00u8, 0x00u8, 0x00u8, 0x00u8]),
{
    reveal(fits);
    lemma_web_rtc_opus_fec_off();
}

proof fn lemma_fits_web_rtc_opus_dtx_off()
    ensures
        fits(encoder::SIG_WEB_RTC_OPUS_DTX_OFF@, 6, seq![0x01u8, 0x00u8, 0x00u8, 0x00u8]),
        fits(encoder::SIG_WEB_RTC_OPUS_DTX_OFF@, 6, seq![0x00u8, 0x00u8, 0x00u8, 0x00u8]),
{
    reveal(fits);
    lemma_web_rtc_opus_dtx_off();
}

proof fn lemma_fits_web_rtc_opus_cbr_always()
    ensures
        fits(encoder::SIG_WEB_RTC_OPUS_CBR_ALWAYS@, 6, seq![0x01u8, 0x00u8, 0x00u8, 0x00u8]),
        fits(encoder::SIG_WEB_RTC_OPUS_CBR_ALWAYS@, 6, seq![0x00u8, 0x00u8, 0x00u8, 0x00u8]),
{
    reveal(fits);
    lemma_web_rtc_opus_cbr_always();
}

proof fn lemma_fits_celt_force()
    ensures
        fits(filters::SIG_CELT_FORCE@, 7, seq![0x18u8, 0xFCu8, 0xFFu8, 0xFFu8]),
        fits(filters::SIG_CELT_FORCE@, 7, seq![0xEAu8, 0x03u8, 0x00u8, 0x00u8]),
{
    reveal(fits);
    lemma_celt_force();
}

proof fn lemma_fits_celt_default_mode()
    ensures
        fits(filters::SIG_CELT_DEFAULT_MODE@, 16, seq![0xE9u8, 0x03u8, 0x00u8, 0x00u8]),
        fits(filters::SIG_CELT_DEFAULT_MODE@, 16, seq![0xEAu8, 0x03u8, 0x00u8, 0x00u8]),
{
    reveal(fits);
    lemma_celt_default_mode();
}

/// Where a site declares its stock bytes, every signature of it fits them at the place that
/// it points at: an untouched build has them there.
pub proof fn law_signatures_fit_the_stock_bytes(i: int, v: int)
    requires
        0 <= i < sites::catalogue().len(),
        sites::catalogue()[i].stock.len() > 0,
        0 <= v < sites::catalogue()[i].patterns.len(),
    ensures
        fits(
            sites::catalogue()[i].patterns[v].0,
            sites::catalogue()[i].patterns[v].1,
            sites::catalogue()[i].stock,
        ),
{
    reveal(sites::site_model);
    let site = sites::catalogue()[i];
    if i == 0 {
        lemma_fits_commit_audio_codec_stereo_check();
        assert(site.stock =~= seq![0x02u8]);
    } else if i == 4 {
        lemma_fits_opus_config_channels();
        assert(site.stock =~= seq![0x01u8]);
    } else if i == 5 {
        lemma_fits_multi_channel_config_channels();
        assert(site.stock =~= seq![0x01u8]);
    } else if i == 6 {
        lemma_fits_channel_controller_force_stereo();
        assert(site.stock =~= seq![0x7Eu8, 0x20u8]);
    } else if i == 7 {
        lemma_fits_select_sample_rate_48k();
        assert(site.stock =~= seq![0x00u8, 0x7Du8, 0x00u8, 0x00u8]);
    } else if i == 8 {
        lemma_fits_opus_config_bitrate();
        assert(site.stock =~= seq![0x00u8, 0x7Du8, 0x00u8, 0x00u8]);
    } else if i == 9 {
        lemma_fits_multi_channel_config_bitrate();
        assert(site.stock =~= seq![0x00u8, 0x7Du8, 0x00u8, 0x00u8]);
    } else if i == 10 {
        lemma_fits_web_rtc_opus_set_bit_rate();
        assert(site.stock =~= seq![0x55u8, 0x48u8, 0x89u8, 0xE5u8, 0x89u8, 0xF2u8]);
    } else if i == 11 {
        lemma_fits_opus_config_application();
        assert(site.stock =~= seq![0x00u8]);
    } else if i == 24 {
        lemma_fits_web_rtc_opus_packet_loss_zero();
        assert(site.stock =~= seq![0x55u8, 0x48u8, 0x89u8, 0xE5u8, 0x89u8, 0xF2u8]);
    } else if i == 25 {
        lemma_fits_web_rtc_opus_complexity_max();
        assert(site.stock =~= seq![0x55u8, 0x48u8, 0x89u8, 0xE5u8, 0x89u8, 0xF2u8]);
    } else if i == 26 {
        lemma_fits_web_rtc_opus_bandwidth_fullband();
        assert(site.stock =~= seq![0x55u8, 0x48u8, 0x89u8, 0xE5u8, 0x89u8, 0xF2u8]);
    } else if i == 27 {
        lemma_fits_web_rtc_opus_fec_off();
        assert(site.stock =~= seq![0x01u8, 0x00u8, 0x00u8, 0x00u8]);
    } else if i == 28 {
        lemma_fits_web_rtc_opus_dtx_off();
        assert(site.stock =~= seq![0x01u8, 0x00u8, 0x00u8, 0x00u8]);
    } else if i == 30 {
        lemma_fits_web_rtc_opus_cbr_always();
        assert(site.stock =~= seq![0x01u8, 0x00u8, 0x00u8, 0x00u8]);
    } else if i == 31 {
        lemma_fits_celt_force();
        assert(site.stock =~= seq![0x18u8, 0xFCu8, 0xFFu8, 0xFFu8]);
    } else if i == 32 {
        lemma_fits_celt_default_mode();
        assert(site.stock =~= seq![0xE9u8, 0x03u8, 0x00u8, 0x00u8]);
    }
}

/// A signature of a site whose bytes are fixed fits them too, so that a patched file is
/// still searched with success; the one that asks for audio in place of speech is the
/// exception.
pub proof fn law_signatures_fit_the_patched_bytes(i: int, v: int, b: Seq<u8>)
    requires
        0 <= i < sites::catalogue().len(),
        sites::catalogue()[i].stock.len() > 0,
        0 <= v < sites::catalogue()[i].patterns.len(),
        sites::catalogue()[i].action == ActionModel::Bytes(b),
        b != seq![0x01u8],
    ensures
        fits(sites::catalogue()[i].patterns[v].0, sites::catalogue()[i].patterns[v].1, b),
{
    reveal(sites::site_model);
    if i == 0 {
        lemma_fits_commit_audio_codec_stereo_check();
        assert(b =~= seq![0x00u8]);
    } else if i == 4 {
        lemma_fits_opus_config_channels();
        assert(b =~= seq![0x02u8]);
    } else if i == 5 {
        lemma_fits_multi_channel_config_channels();
        assert(b =~= seq![0x02u8]);
    } else if i == 6 {
        lemma_fits_channel_controller_force_stereo();
        assert(b =~= seq![0x90u8, 0x90u8]);
    } else if i == 7 {
        lemma_fits_select_sample_rate_48k();
        assert(b =~= seq![0x80u8, 0xBBu8, 0x00u8, 0x00u8]);
    } else if i == 27 {
        lemma_fits_web_rtc_opus_fec_off();
        assert(b =~= seq![0x00u8, 0x00u8, 0x00u8, 0x00u8]);
    } else if i == 28 {
        lemma_fits_web_rtc_opus_dtx_off();
        assert(b =~= seq![0x00u8, 0x00u8, 0x00u8, 0x00u8]);
    } else if i == 30 {
        lemma_fits_web_rtc_opus_cbr_always();
        assert(b =~= seq![0x00u8, 0x00u8, 0x00u8, 0x00u8]);
    } else if i == 31 {
        lemma_fits_celt_force();
        assert(b =~= seq![0xEAu8, 0x03u8, 0x00u8, 0x00u8]);
    } else if i == 32 {
        lemma_fits_celt_default_mode();
        assert(b =~= seq![0xEAu8, 0x03u8, 0x00u8, 0x00u8]);
    }
}

/// The site of that name is looked for by the request, behind `at` bytes.
pub open spec fn is_told_by(name: Seq<char>, at: int, request: int) -> bool {
    patch::known_site(name) matches Some(site) && site.patterns.len() == 1 && makes_request(
        site.patterns[0].0,
        at,
        request,
    )
}

proof fn lemma_known(i: int)
    requires
        0 <= i < sites::catalogue().len(),
    ensures
        patch::known_site(sites::catalogue()[i].name) == Some(sites::catalogue()[i]),
{
    assert(sites::catalogue().contains(sites::catalogue()[i]));
    patch::lemma_known_site(sites::catalogue()[i], sites::catalogue()[i].name);
}

/// The encoder's wrappers, which look alike, are told apart by the request that each
/// makes: bitrate, packet loss, complexity, bandwidth, error correction, silence, and
/// variable bitrate.
pub proof fn law_wrappers_are_told_apart_by_their_request()
    ensures
        is_told_by("WebRtcOpus_SetBitRate"@, 17, 4002),
        is_told_by("WebRtcOpus_PacketLoss_Zero"@, 17, 4014),
        is_told_by("WebRtcOpus_Complexity_Max"@, 17, 4010),
        is_told_by("WebRtcOpus_Bandwidth_Fullband"@, 17, 4008),
        is_told_by("WebRtcOpus_Fec_Off"@, 0, 4012),
        is_told_by("WebRtcOpus_Dtx_Off"@, 0, 4016),
        is_told_by("WebRtcOpus_Cbr_Always"@, 0, 4006),
{
    reveal(sites::site_model);
    lemma_web_rtc_opus_set_bit_rate();
    lemma_known(10);
    lemma_web_rtc_opus_packet_loss_zero();
    lemma_known(24);
    lemma_web_rtc_opus_complexity_max();
    lemma_known(25);
    lemma_web_rtc_opus_bandwidth_fullband();
    lemma_known(26);
    lemma_web_rtc_opus_fec_off();
    lemma_known(27);
    lemma_web_rtc_opus_dtx_off();
    lemma_known(28);
    lemma_web_rtc_opus_cbr_always();
    lemma_known(30);
}

} // verus!
