//! Gamma ramps that give a display its warmth and brightness.

use vstd::prelude::*;
use vstd::arithmetic::power2::{lemma2_to64, lemma_pow2_adds, pow2};

use crate::binary64::{
    apart, lemma_rounded_between, lemma_rounded_exact, lemma_rounded_monotone,
    lemma_rounded_scaled, product, quotient, ratio, representable, rounded, rounding_stays_close,
    unit, whole, wholes_are_nearest, Binary64,
};
use crate::config::{neutral_levels, Levels};

verus! {

// The display white point for a colour temperature follows an approximation of black-body
// radiation with a logarithm in it: at `t` hundred kelvin, below 6500 K, green is
// `(99.4708025861 ln t - 161.1195681661) / 255` and blue is
// `(138.5177312231 ln (t - 10) - 305.0447927307) / 255`, while red stays at one. Warmth takes whole
// percentages, so the white points are tabled, in double precision.

/// The green of the white point at each warmth, in steps of `2^-53`.
pub const GREEN: [u64; 101] = [
    0x20_0000_0000_0000, 0x1F_CFAF_725E_8878, 0x1F_BBD6_4F66_1F73, 0x1F_A7DD_6A8E_A6FD,
    0x1F_93C4_5D94_A7E8, 0x1F_7F8A_C043_953F, 0x1F_6B30_2869_2216, 0x1F_56B4_29C8_2F73,
    0x1F_4216_560B_4E42, 0x1F_2D56_3CB6_D115, 0x1F_1873_6B1A_6984, 0x1F_036D_6C42_4C2A,
    0x1E_EE43_C8E7_D6DF, 0x1E_D8F6_0761_B3E2, 0x1E_C383_AB93_74B1, 0x1E_ADEC_36DC_9F2B,
    0x1E_982F_2807_2707, 0x1E_824B_FB35_4DB4, 0x1E_6C42_29CE_E22E, 0x1E_5611_2A6D_DA2C,
    0x1E_3FB8_70CA_3D9A, 0x1E_2937_6DA5_5D1B, 0x1E_128D_8EB4_4BD0, 0x1D_FBBA_3E89_9448,
    0x1D_E4BC_E47E_204E, 0x1D_CD94_E499_4A38, 0x1D_B641_9F78_0EDD, 0x1D_9EC2_7233_55FA,
    0x1D_8716_B645_46B9, 0x1D_6F3D_C16D_9D7D, 0x1D_5736_E594_F76D, 0x1D_3F01_70AF_07A4,
    0x1D_269C_AC9B_A935, 0x1D_0E07_DF06_C0C5, 0x1C_F542_4946_DF4F, 0x1C_DC4B_283A_974D,
    0x1C_C321_B424_747E, 0x1C_A9C5_2085_8592, 0x1C_9034_9BF6_6644, 0x1C_766F_4FFE_B737,
    0x1C_5C74_60EA_F00A, 0x1C_4242_EDA0_76E7, 0x1C_27DA_0F6F_E779, 0x1C_0D38_D9E5_7250,
    0x1B_F25E_5A97_3BCE, 0x1B_D749_98F1_A0C5, 0x1B_BBF9_9601_452F, 0x1B_A06D_4C3A_CF7B,
    0x1B_84A3_AF40_31B0, 0x1B_689B_ABA3_5F3B, 0x1B_4C54_26A6_4C6C, 0x1B_2FCB_FDF8_1291,
    0x1B_1302_076F_10EB, 0x1A_F5F5_10BF_E0AD, 0x1A_D8A3_DF30_EF15, 0x1A_BB0D_2F4A_8E0C,
    0x1A_9D2F_B483_4878, 0x1A_7F0A_18E8_4432, 0x1A_609A_FCC1_77D4, 0x1A_41E0_F631_76B5,
    0x1A_22DA_90D0_9159, 0x1A_0386_4D43_0400, 0x19_E3E2_A0C9_E7FA, 0x19_C3ED_F4CE_9771,
    0x19_A3A6_A668_2D7F, 0x19_830B_05DA_C60A, 0x19_6219_5610_1AAD, 0x19_40CF_CC09_125A,
    0x19_1F2C_8E47_D1B2, 0x18_FD2D_B431_D18A, 0x18_DAD1_4569_77F4, 0x18_B815_391E_A5F4,
    0x18_94F7_7555_A143, 0x18_7175_CE23_B586, 0x18_4D8E_04E0_DB9C, 0x18_293D_C74D_A737,
    0x18_0482_AEAC_AC00, 0x17_DF5A_3ECE_7A0C, 0x17_B9C1_E50F_3FA8, 0x17_93B6_F745_09D2,
    0x17_6D36_B29D_86A9, 0x17_463E_3A6A_1503, 0x17_1ECA_96D8_D17F, 0x16_F6D8_B399_33DE,
    0x16_CE65_5E6A_AF98, 0x16_A56D_4593_A642, 0x16_7BEC_F63E_D3C0, 0x16_51E0_DABD_2FEE,
    0x16_2745_38AA_121C, 0x15_FC16_2EEF_2C7C, 0x15_D04F_B3A5_BB2D, 0x15_A3ED_91D2_0046,
    0x15_76EB_66F5_DD37, 0x15_4944_A077_0856, 0x15_1AF4_78D5_0236, 0x14_EBF5_F4AA_88DF,
    0x14_BC43_DF75_D4D7, 0x14_8BD8_C822_6C78, 0x14_5AAE_FD4E_CA7C, 0x14_28C0_8947_7337,
    0x13_F607_2DB0_5E64,
];

/// The blue of the white point at each warmth, in steps of `2^-53` up to a warmth of 80, and of
/// `2^-54` from there on.
pub const BLUE: [u64; 101] = [
    0x20_0000_0000_0000, 0x1F_403C_C291_7850, 0x1F_1F84_5885_C000, 0x1E_FE8D_E22B_2CA5,
    0x1E_DD58_726C_9F7F, 0x1E_BBE3_16DB_EEB3, 0x1E_9A2C_D788_6899, 0x1E_7834_B6D3_C1B2,
    0x1E_55F9_B145_5A72, 0x1E_337A_BD5B_C939, 0x1E_10B6_CB5C_93C0, 0x1D_EDAC_C522_01DE,
    0x1D_CA5B_8DE6_F293, 0x1D_A6C2_0210_9AEB, 0x1D_82DE_F6F6_14BD, 0x1D_5EB1_3AA5_A20A,
    0x1D_3A37_93A7_8830, 0x1D_1570_C0BE_6414, 0x1C_F05B_78A4_D74B, 0x1C_CAF6_69C8_6BDC,
    0x1C_A540_3A01_8A06, 0x1C_7F37_8648_5A5A, 0x1C_58DA_E266_6A62, 0x1C_3228_D8A4_E98A,
    0x1C_0B1F_E977_4FC4, 0x1B_E3BE_8B22_3D51, 0x1B_BC03_295E_601C, 0x1B_93EC_24F7_2727,
    0x1B_6B77_D365_09EE, 0x1B_42A4_7E63_2525, 0x1B_1970_637F_EA6A, 0x1A_EFD9_B3A8_9C85,
    0x1A_C5DE_92AF_4C64, 0x1A_9B7D_16CB_06CB, 0x1A_70B3_4811_DCCD, 0x1A_457F_1FEC_6B1B,
    0x1A_19DE_8882_7ED3, 0x19_EDCF_5C20_6E60, 0x19_C14F_6494_B6FF, 0x19_945C_5A85_667A,
    0x19_66F3_E4BC_D0B7, 0x19_3913_976D_0743, 0x19_0AB8_F369_7F0F, 0x18_DBE1_6556_4551,
    0x18_AC8A_44CC_1937, 0x18_7CB0_D370_B2D7, 0x18_4C52_3C02_71EE, 0x18_1B6B_9156_9FE4,
    0x17_E9F9_CD49_5FE6, 0x17_B7F9_CF9E_5608, 0x17_8568_5CD0_FA70, 0x17_5242_1CD3_7876,
    0x17_1E83_99BA_E1BE, 0x16_EA29_3E57_641A, 0x16_B52F_54B7_1487, 0x16_7F92_0491_C2C7,
    0x16_494D_519C_2794, 0x16_125D_19C0_99EC, 0x15_DABD_133B_4F13, 0x15_A268_CA97_FC12,
    0x15_695B_A08E_7D8A, 0x15_2F90_C7BB_F426, 0x14_F503_4235_8711, 0x14_B9AD_DEF1_BB11,
    0x14_7D8B_3705_0270, 0x14_4095_AAAD_D737, 0x14_02C7_5E2C_562C, 0x13_C41A_3660_EA6C,
    0x13_8487_D52D_2856, 0x13_4409_9591_777B, 0x13_0298_8781_9DB6, 0x12_C02D_6B69_9EDD,
    0x12_7CC0_AD5B_B2A7, 0x12_384A_5FDF_4ACD, 0x11_F2C2_3658_4272, 0x11_AC1F_7EFC_52D7,
    0x11_6459_1C4B_CB7F, 0x11_1B65_7E01_483C, 0x10_D13A_996A_B143, 0x10_85CD_E11C_3119,
    0x10_3914_3BEB_F252, 0x1F_D603_F646_B646, 0x1F_3715_9FA0_2676, 0x1E_9543_7E38_BA2E,
    0x1D_F072_2B26_4070, 0x1D_4884_B260_B5AA, 0x1C_9D5C_7434_F676, 0x1B_EED9_03B8_8323,
    0x1B_3CD8_01E2_4656, 0x1A_8734_F4DF_2A3A, 0x19_CDC9_1B29_EE7E, 0x19_106B_39DB_BBDC,
    0x18_4EEF_6595_DC74, 0x17_8926_C54C_2ACF, 0x16_BEDF_4E1A_6F33, 0x15_EFE3_772C_1353,
    0x15_1BF9_E494_21AA, 0x14_42E5_07C1_FC30, 0x13_6462_B403_C384, 0x12_802B_A53F_C091,
    0x11_95F2_F6B7_6676,
];
/// A warmth of at most one hundred percent.
pub open spec fn capped(warmth: u8) -> int {
    if warmth < 100 {
        warmth as int
    } else {
        100
    }
}

/// The colour temperature of a warmth: from 6500 K at zero to 2500 K at one hundred percent.
pub open spec fn kelvin(warmth: u8) -> int {
    6500 - 40 * capped(warmth)
}

/// The colour temperature of a warmth.
pub fn warmth_to_kelvin(warmth: u8) -> (k: u16)
    ensures
        k == kelvin(warmth),
{
    let percent: u16 = if warmth < 100 {
        warmth as u16
    } else {
        100
    };
    6500 - 40 * percent
}

/// A channel of the display.
#[derive(Clone, Copy, Debug, PartialEq, Eq, Structural)]
pub enum Channel {
    Red,
    Green,
    Blue,
}

/// The channel that comes at a place in the ramps.
pub open spec fn channel_at(place: int) -> Channel {
    if place == 0 {
        Channel::Red
    } else if place == 1 {
        Channel::Green
    } else {
        Channel::Blue
    }
}

/// The share of a channel in the white point, in units of [`unit`].
pub open spec fn white_point(channel: Channel, warmth: u8) -> int {
    match channel {
        Channel::Red => unit(),
        Channel::Green => GREEN@[capped(warmth)] * 0x2_0000_0000,
        Channel::Blue => BLUE@[capped(warmth)] * if capped(warmth) <= 80 {
            0x2_0000_0000int
        } else {
            0x1_0000_0000
        },
    }
}

/// How far into a ramp an entry stands, from zero to one.
pub open spec fn ramp_input(index: int, size: int) -> int {
    if size == 1 {
        unit()
    } else {
        quotient(index * unit(), (size - 1) * unit())
    }
}

/// An output before it is rounded to a whole step, in units of [`unit`].
pub open spec fn output(input: int, share: int, brightness: u8) -> int {
    product(
        product(product(input, 65535 * unit()), share),
        quotient(brightness * unit(), 100 * unit()),
    )
}

/// A ramp entry: the output as a whole step, of at most 65535.
pub open spec fn ramp_value(channel: Channel, index: int, size: int, levels: Levels) -> int {
    let step = whole(
        output(ramp_input(index, size), white_point(channel, levels.warmth), levels.brightness),
    );
    if step < 65535 {
        step
    } else {
        65535
    }
}

proof fn lemma_counts(k: int)
    requires
        0 <= k <= 0x1_0000_0000,
    ensures
        representable(k * unit()),
{
    lemma_rounded_exact(k, 86);
    lemma_unit_power();
}

proof fn lemma_unit_power()
    ensures
        pow2(86) == unit(),
{
    lemma_pow2_adds(64, 22);
    lemma2_to64();
}

proof fn lemma_ratio(count: int, of: int, most: int)
    requires
        0 <= count,
        0 < of,
        0 <= most <= 0x1_0000_0000,
        count <= most * of,
    ensures
        0 <= quotient(count * unit(), of * unit()) <= most * unit(),
{
    lemma_counts(0);
    lemma_counts(most);
    assert(0 <= count * unit() * unit() <= most * unit() * (of * unit())) by (nonlinear_arith)
        requires
            0 <= count <= most * of,
            unit() > 0,
    ;
    lemma_rounded_between(count * unit() * unit(), of * unit(), 0, most * unit());
}

proof fn lemma_product(x: int, y: int, most_x: int, most_y: int)
    requires
        0 <= x <= most_x * unit(),
        0 <= y <= most_y * unit(),
        0 <= most_x <= 65535,
        0 <= most_y <= 65535,
    ensures
        0 <= product(x, y) <= most_x * most_y * unit(),
        0 <= x * y <= most_x * most_y * unit() * unit(),
{
    let most = most_x * most_y;
    assert(0 <= most <= 0x1_0000_0000) by (nonlinear_arith)
        requires
            most == most_x * most_y,
            0 <= most_x <= 65535,
            0 <= most_y <= 65535,
    ;
    assert(0 <= x * y <= most * unit() * unit()) by (nonlinear_arith)
        requires
            most == most_x * most_y,
            0 <= x <= most_x * unit(),
            0 <= y <= most_y * unit(),
            unit() > 0,
    ;
    lemma_counts(0);
    lemma_counts(most);
    lemma_rounded_between(x * y, unit(), 0, most * unit());
}

proof fn lemma_product_monotone(x: int, x2: int, y: int, y2: int)
    requires
        0 <= x <= x2,
        0 <= y <= y2,
    ensures
        0 <= product(x, y) <= product(x2, y2),
{
    assert(0 <= x * y <= x2 * y2) by (nonlinear_arith)
        requires
            0 <= x <= x2,
            0 <= y <= y2,
    ;
    lemma_rounded_monotone(x * y, x2 * y2, unit());
}

proof fn lemma_tables(w: int)
    requires
        0 <= w <= 100,
    ensures
        0x10_0000_0000_0000 <= GREEN@[w] <= 0x20_0000_0000_0000,
        0x10_0000_0000_0000 <= BLUE@[w] <= 0x20_0000_0000_0000,
{
}

proof fn lemma_white_point(channel: Channel, warmth: u8)
    ensures
        0 <= white_point(channel, warmth) <= unit(),
{
    lemma_tables(capped(warmth));
}

proof fn lemma_input(index: int, size: int)
    requires
        0 <= index < size,
    ensures
        0 <= ramp_input(index, size) <= unit(),
{
    if size > 1 {
        lemma_ratio(index, size - 1, 1);
    }
}

proof fn lemma_output(input: int, share: int, brightness: u8)
    requires
        0 <= input <= unit(),
        0 <= share <= unit(),
    ensures
        0 <= product(input, 65535 * unit()) <= 65535 * unit(),
        0 <= product(product(input, 65535 * unit()), share) <= 65535 * unit(),
        0 <= quotient(brightness * unit(), 100 * unit()) <= 3 * unit(),
        0 <= output(input, share, brightness) <= 65535 * 3 * unit(),
{
    lemma_product(input, 65535 * unit(), 1, 65535);
    lemma_product(product(input, 65535 * unit()), share, 65535, 1);
    lemma_ratio(brightness as int, 100, 3);
    lemma_product(
        product(product(input, 65535 * unit()), share),
        quotient(brightness * unit(), 100 * unit()),
        65535,
        3,
    );
}

proof fn lemma_steps(mantissa: int)
    ensures
        mantissa * pow2(33) == mantissa * 0x2_0000_0000,
        mantissa * pow2(32) == mantissa * 0x1_0000_0000,
{
    lemma2_to64();
    lemma_pow2_adds(32, 1);
    assert(pow2(33) == 0x2_0000_0000);
}

/// The share of a channel in the white point.
fn white_share(channel: Channel, warmth: u8) -> (share: Binary64)
    ensures
        share@ == white_point(channel, warmth),
        0 <= share@ <= unit(),
{
    let place: usize = if warmth < 100 {
        warmth as usize
    } else {
        100
    };
    proof {
        lemma_tables(place as int);
        lemma_white_point(channel, warmth);
        lemma_steps(GREEN@[place as int] as int);
        lemma_steps(BLUE@[place as int] as int);
    }
    match channel {
        Channel::Red => Binary64::from_count(1),
        Channel::Green => {
            let table: [u64; 101] = GREEN;
            Binary64::new(table[place], 33)
        },
        Channel::Blue => {
            let table: [u64; 101] = BLUE;
            if place <= 80 {
                Binary64::new(table[place], 33)
            } else {
                Binary64::new(table[place], 32)
            }
        },
    }
}

/// One entry of a ramp.
fn ramp_entry(
    index: u32,
    size: u32,
    share: &Binary64,
    brightness: &Binary64,
    Ghost(channel): Ghost<Channel>,
    Ghost(levels): Ghost<Levels>,
) -> (value: u16)
    requires
        index < size,
        share@ == white_point(channel, levels.warmth),
        brightness@ == quotient(levels.brightness * unit(), 100 * unit()),
    ensures
        value == ramp_value(channel, index as int, size as int, levels),
{
    proof {
        lemma_input(index as int, size as int);
        lemma_white_point(channel, levels.warmth);
        lemma_output(ramp_input(index as int, size as int), share@, levels.brightness);
        let x = product(ramp_input(index as int, size as int), 65535 * unit());
        lemma_product(x, share@, 65535, 1);
        lemma_product(product(x, share@), brightness@, 65535, 3);
    }
    let input: Binary64 = if size == 1 {
        Binary64::from_count(1)
    } else {
        ratio(index, size - 1)
    };
    let step: u128 = input.times_count(65535).times(share).times(brightness).to_whole();
    if step < 65535 {
        step as u16
    } else {
        65535
    }
}

/// The entry at a position in the ramps.
pub open spec fn ramp_at(position: int, size: int, levels: Levels) -> u16 {
    ramp_value(channel_at(position / size), position % size, size, levels) as u16
}

proof fn lemma_range(channel: Channel, index: int, size: int, levels: Levels)
    requires
        0 <= index < size,
    ensures
        0 <= ramp_value(channel, index, size, levels) <= 65535,
{
    lemma_input(index, size);
    lemma_white_point(channel, levels.warmth);
    lemma_output(
        ramp_input(index, size),
        white_point(channel, levels.warmth),
        levels.brightness,
    );
}

proof fn lemma_place(place: int, index: int, size: int)
    requires
        0 <= place < 3,
        0 <= index < size,
    ensures
        (place * size + index) / size == place,
        (place * size + index) % size == index,
        place * size + index < 3 * size,
{
    assert(place * size <= 2 * size) by (nonlinear_arith)
        requires
            place <= 2,
            0 <= size,
    ;
    vstd::arithmetic::div_mod::lemma_fundamental_div_mod_converse(
        place * size + index,
        size,
        place,
        index,
    );
}

/// The ramps of the three channels, one after the other, `size` entries each.
pub fn gamma_ramps(size: u32, levels: Levels) -> (ramps: Vec<u16>)
    ensures
        ramps.len() == 3 * size,
        forall|place: int, index: int|
            0 <= place < 3 && 0 <= index < size ==> #[trigger] ramps@[place * size + index]
                == ramp_value(channel_at(place), index, size as int, levels),
{
    let mut ramps: Vec<u16> = Vec::new();
    let brightness: Binary64 = ratio(levels.brightness as u32, 100);
    let mut place: u32 = 0;
    while place < 3
        invariant
            place <= 3,
            ramps.len() == place * size,
            brightness@ == quotient(levels.brightness * unit(), 100 * unit()),
            ramps@ =~= Seq::new((place * size) as nat, |i: int| ramp_at(i, size as int, levels)),
        decreases 3 - place,
    {
        let channel: Channel = if place == 0 {
            Channel::Red
        } else if place == 1 {
            Channel::Green
        } else {
            Channel::Blue
        };
        let share: Binary64 = white_share(channel, levels.warmth);
        let mut index: u32 = 0;
        while index < size
            invariant
                index <= size,
                place < 3,
                channel == channel_at(place as int),
                share@ == white_point(channel, levels.warmth),
                brightness@ == quotient(levels.brightness * unit(), 100 * unit()),
                ramps@ =~= Seq::new(
                    (place * size + index) as nat,
                    |i: int| ramp_at(i, size as int, levels),
                ),
            decreases size - index,
        {
            proof {
                lemma_place(place as int, index as int, size as int);
            }
            ramps.push(
                ramp_entry(index, size, &share, &brightness, Ghost(channel), Ghost(levels)),
            );
            index = index + 1;
        }
        place = place + 1;
    }
    proof {
        assert forall|place: int, index: int| 0 <= place < 3 && 0 <= index < size implies
            #[trigger] ramps@[place * size + index] == ramp_value(
            channel_at(place),
            index,
            size as int,
            levels,
        ) by {
            lemma_place(place, index, size as int);
            lemma_range(channel_at(place), index, size as int, levels);
        }
    }
    ramps
}


// ── what holds of every ramp ─────────────────────────────────────────────────

proof fn lemma_output_monotone(
    input: int,
    input2: int,
    share: int,
    share2: int,
    brightness: u8,
    brightness2: u8,
)
    requires
        0 <= input <= input2,
        0 <= share <= share2,
        brightness <= brightness2,
    ensures
        output(input, share, brightness) <= output(input2, share2, brightness2),
        whole(output(input, share, brightness)) <= whole(output(input2, share2, brightness2)),
{
    let top = 65535 * unit();
    lemma_product_monotone(input, input2, top, top);
    lemma_product_monotone(product(input, top), product(input2, top), share, share2);
    let b = brightness * unit() * unit();
    let b2 = brightness2 * unit() * unit();
    lemma_rounded_monotone(b, b2, 100 * unit());
    lemma_product_monotone(
        product(product(input, top), share),
        product(product(input2, top), share2),
        quotient(brightness * unit(), 100 * unit()),
        quotient(brightness2 * unit(), 100 * unit()),
    );
    vstd::arithmetic::div_mod::lemma_div_is_ordered(
        2 * output(input, share, brightness) + unit(),
        2 * output(input2, share2, brightness2) + unit(),
        2 * unit(),
    );
}

/// A ramp never falls.
pub proof fn ramps_rise(channel: Channel, i: int, j: int, size: int, levels: Levels)
    requires
        0 <= i <= j < size,
    ensures
        ramp_value(channel, i, size, levels) <= ramp_value(channel, j, size, levels),
{
    lemma_input(i, size);
    lemma_white_point(channel, levels.warmth);
    if size > 1 {
        assert(0 <= i * unit() * unit() <= j * unit() * unit()) by (nonlinear_arith)
            requires
                0 <= i <= j,
        ;
        lemma_rounded_monotone(i * unit() * unit(), j * unit() * unit(), (size - 1) * unit());
    }
    let share = white_point(channel, levels.warmth);
    lemma_output_monotone(
        ramp_input(i, size),
        ramp_input(j, size),
        share,
        share,
        levels.brightness,
        levels.brightness,
    );
}

/// A ramp of two entries or more starts at black.
pub proof fn ramps_start_at_black(channel: Channel, size: int, levels: Levels)
    requires
        size > 1,
    ensures
        ramp_value(channel, 0, size, levels) == 0,
{
    lemma_ratio(0, size - 1, 0);
    let share = white_point(channel, levels.warmth);
    lemma_white_point(channel, levels.warmth);
    let top = 65535 * unit();
    lemma_product(0, top, 0, 65535);
    lemma_product(0, share, 0, 1);
    lemma_ratio(levels.brightness as int, 100, 3);
    lemma_product(0, quotient(levels.brightness * unit(), 100 * unit()), 0, 3);
}

proof fn lemma_times_one(k: int)
    requires
        0 <= k <= 65535,
    ensures
        product(k * unit(), unit()) == k * unit(),
        product(unit(), k * unit()) == k * unit(),
{
    lemma_counts(k);
    lemma_rounded_between(k * unit() * unit(), unit(), k * unit(), k * unit());
    assert(unit() * (k * unit()) == k * unit() * unit()) by (nonlinear_arith);
}

proof fn lemma_full(count: int)
    requires
        count > 0,
    ensures
        quotient(count * unit(), count * unit()) == unit(),
{
    lemma_counts(1);
    let d = count * unit();
    lemma_rounded_between(d * unit(), d, unit(), unit());
}

/// At neutral levels every ramp ends at full white.
pub proof fn neutral_ramps_end_at_white(channel: Channel, size: int)
    requires
        size > 0,
    ensures
        ramp_value(channel, size - 1, size, neutral_levels()) == 65535,
{
    if size > 1 {
        lemma_full(size - 1);
    }
    lemma_full(100);
    lemma_times_one(65535);
    assert(white_point(channel, 0) == unit());
    assert(whole(65535 * unit()) == 65535);
}

/// Without warmth the three channels get one ramp, so that white stays white.
pub proof fn no_warmth_keeps_white(channel: Channel, index: int, size: int, brightness: u8)
    ensures
        ramp_value(channel, index, size, Levels { warmth: 0, brightness }) == ramp_value(
            Channel::Red,
            index,
            size,
            Levels { warmth: 0, brightness },
        ),
{
    assert(white_point(channel, 0) == unit());
}

/// Red is not dimmed by warmth.
pub proof fn warmth_keeps_red(index: int, size: int, brightness: u8, warmth: u8, warmer: u8)
    ensures
        ramp_value(Channel::Red, index, size, Levels { warmth, brightness }) == ramp_value(
            Channel::Red,
            index,
            size,
            Levels { warmth: warmer, brightness },
        ),
{
}

proof fn lemma_tables_fall(w: int)
    requires
        0 <= w < 100,
    ensures
        GREEN@[w] > GREEN@[w + 1],
        w != 80 ==> BLUE@[w] > BLUE@[w + 1],
        2 * BLUE@[80] > BLUE@[81],
{
}

proof fn lemma_white_point_falls(channel: Channel, warmth: u8, warmer: u8)
    requires
        warmth <= warmer,
    ensures
        white_point(channel, warmer) <= white_point(channel, warmth),
    decreases warmer - warmth,
{
    if warmth < warmer {
        lemma_white_point_falls(channel, (warmth + 1) as u8, warmer);
        if warmth < 100 {
            lemma_tables_fall(warmth as int);
        }
    }
}

/// More warmth never raises an entry: it takes green and blue away.
pub proof fn warmth_takes_away(
    channel: Channel,
    index: int,
    size: int,
    brightness: u8,
    warmth: u8,
    warmer: u8,
)
    requires
        0 <= index < size,
        warmth <= warmer,
    ensures
        ramp_value(channel, index, size, Levels { warmth: warmer, brightness }) <= ramp_value(
            channel,
            index,
            size,
            Levels { warmth, brightness },
        ),
{
    lemma_white_point(channel, warmer);
    lemma_white_point_falls(channel, warmth, warmer);
    lemma_input(index, size);
    let input = ramp_input(index, size);
    lemma_output_monotone(
        input,
        input,
        white_point(channel, warmer),
        white_point(channel, warmth),
        brightness,
        brightness,
    );
}

/// More brightness never lowers an entry.
pub proof fn brightness_adds(
    channel: Channel,
    index: int,
    size: int,
    warmth: u8,
    brightness: u8,
    brighter: u8,
)
    requires
        0 <= index < size,
        brightness <= brighter,
    ensures
        ramp_value(channel, index, size, Levels { warmth, brightness }) <= ramp_value(
            channel,
            index,
            size,
            Levels { warmth, brightness: brighter },
        ),
{
    let share = white_point(channel, warmth);
    lemma_white_point(channel, warmth);
    lemma_input(index, size);
    let input = ramp_input(index, size);
    lemma_output_monotone(input, input, share, share, brightness, brighter);
}

proof fn lemma_blue_below_green(w: int)
    requires
        0 < w <= 100,
    ensures
        white_point(Channel::Blue, w as u8) < white_point(Channel::Green, w as u8) < unit(),
{
}

/// Under warmth the white point has less green than red, and less blue than green.
pub proof fn warm_white_is_red_then_green_then_blue(warmth: u8)
    requires
        warmth > 0,
    ensures
        white_point(Channel::Blue, warmth) < white_point(Channel::Green, warmth),
        white_point(Channel::Green, warmth) < white_point(Channel::Red, warmth),
{
    lemma_blue_below_green(capped(warmth));
}

// ── what ramps come to ───────────────────────────────────────────────────────

/// The steps of `2^-54` that a channel has in the white point, by its place in the ramps: red is
/// full, green and blue are tabled.
pub open spec fn share_steps(place: int, warmth: int) -> int {
    if place == 0 {
        0x40_0000_0000_0000
    } else if place == 1 {
        2 * GREEN@[warmth]
    } else if warmth <= 80 {
        2 * BLUE@[warmth]
    } else {
        BLUE@[warmth] as int
    }
}

proof fn lemma_share_steps(place: int, warmth: u8)
    requires
        0 <= place < 3,
        warmth <= 100,
    ensures
        white_point(channel_at(place), warmth) == share_steps(place, warmth as int)
            * 0x1_0000_0000,
{
}

proof fn lemma_product_close(x: int, y: int, most: int)
    requires
        0 <= x <= most * unit(),
        0 <= y <= unit(),
        0 <= most <= 65535,
    ensures
        apart(product(x, y) * unit(), x * y) <= unit() * 0x2_0000_0000_0000,
{
    assert(0 <= x * y <= most * unit() * unit()) by (nonlinear_arith)
        requires
            0 <= x <= most * unit(),
            0 <= y <= unit(),
            0 <= most,
    ;
    rounding_stays_close(x * y, unit());
}

proof fn lemma_scaled(x: int, y: int, most: int, factor: int)
    requires
        apart(x, y) <= most,
        factor >= 0,
    ensures
        apart(factor * x, factor * y) <= factor * most,
{
    assert(apart(factor * x, factor * y) <= factor * most) by (nonlinear_arith)
        requires
            apart(x, y) <= most,
            factor >= 0,
    ;
}

proof fn lemma_unscaled(x: int, y: int, most: int, factor: int)
    requires
        apart(factor * x, factor * y) <= factor * most,
        factor > 0,
    ensures
        apart(x, y) <= most,
{
    assert(apart(x, y) <= most) by (nonlinear_arith)
        requires
            apart(factor * x, factor * y) <= factor * most,
            factor > 0,
    ;
}

/// The input of an entry, brought to full scale.
proof fn lemma_scale_close(a: int, m: int, input: int)
    requires
        0 <= a <= m,
        m > 0,
        input == rounded(a * unit(), m),
        0 <= input <= unit(),
    ensures
        apart(m * product(input, 65535 * unit()), 65535 * a * unit()) <= m * 0x4_0000_0000_0000,
{
    let u = unit();
    rounding_stays_close(a * u, m);
    assert(apart(input * m, a * u) <= m * 0x2_0000_0000) by {
        assert(a * u <= m * u) by (nonlinear_arith)
            requires
                a <= m,
                u > 0,
        ;
    }
    let p = product(input, 65535 * u);
    assert(input * (65535 * u) == (input * 65535) * u) by (nonlinear_arith);
    lemma_rounded_scaled(input * 65535, 1, u);
    rounding_stays_close(input * 65535, 1);
    assert(p * 1 == p);
    assert(apart(p, input * 65535) <= 0x2_0000_0000_0000);
    lemma_scaled(p, input * 65535, 0x2_0000_0000_0000, m);
    assert(m * (input * 65535) == 65535 * (input * m)) by (nonlinear_arith);
    lemma_scaled(input * m, a * u, m * 0x2_0000_0000, 65535);
    assert(65535 * (a * u) == 65535 * a * u) by (nonlinear_arith);
}

/// A full-scale input under a share of the white point.
proof fn lemma_share_close(a: int, m: int, p: int, w: int)
    requires
        0 <= a <= m,
        m > 0,
        0 <= p <= 65535 * unit(),
        0 <= w <= unit(),
        apart(m * p, 65535 * a * unit()) <= m * 0x4_0000_0000_0000,
    ensures
        apart(m * product(p, w), 65535 * a * w) <= m * 0x8_0000_0000_0000,
{
    let u = unit();
    let r = product(p, w);
    let e = 0x2_0000_0000_0000int;
    lemma_product_close(p, w, 65535);
    lemma_scaled(r * u, p * w, u * e, m);
    lemma_scaled(m * p, 65535 * a * u, m * 0x4_0000_0000_0000, w);
    assert(m * (r * u) == u * (m * r)) by (nonlinear_arith);
    assert(m * (p * w) == w * (m * p)) by (nonlinear_arith);
    assert(w * (65535 * a * u) == u * (65535 * a * w)) by (nonlinear_arith);
    assert(m * (u * e) == u * (m * e)) by (nonlinear_arith);
    assert(w * (m * (2 * e)) <= u * (m * (2 * e))) by (nonlinear_arith)
        requires
            0 <= w <= u,
            m > 0,
            e > 0,
    ;
    assert(u * (m * e) + u * (m * (2 * e)) <= u * (m * (4 * e))) by (nonlinear_arith)
        requires
            u > 0,
            m > 0,
            e > 0,
    ;
    lemma_unscaled(m * r, 65535 * a * w, m * (4 * e), u);
}

/// An output at a brightness.
proof fn lemma_brightness_close(a: int, m: int, p: int, w: int, b: int, q: int)
    requires
        0 <= a <= m,
        m > 0,
        0 <= p <= 65535 * unit(),
        0 <= b <= 100,
        q == quotient(b * unit(), 100 * unit()),
        0 <= q <= unit(),
        apart(m * p, 65535 * a * w) <= m * 0x8_0000_0000_0000,
    ensures
        apart(100 * (m * product(p, q)), 65535 * a * w * b) <= m * 0x800_0000_0000_0000,
{
    let u = unit();
    let r = product(p, q);
    let e = 0x2_0000_0000_0000int;
    lemma_rounded_scaled(b * u, 100, u);
    assert(b * u * u == (b * u) * u);
    rounding_stays_close(b * u, 100);
    assert(apart(q * 100, b * u) <= 0x100_0000_0000);
    lemma_product_close(p, q, 65535);
    lemma_scaled(r * u, p * q, u * e, 100 * m);
    lemma_scaled(q * 100, b * u, 0x100_0000_0000, m * p);
    lemma_scaled(m * p, 65535 * a * w, m * (4 * e), b * u);
    assert((100 * m) * (r * u) == u * (100 * (m * r))) by (nonlinear_arith);
    assert((100 * m) * (p * q) == (m * p) * (q * 100)) by (nonlinear_arith);
    assert((m * p) * (b * u) == (b * u) * (m * p)) by (nonlinear_arith);
    assert((b * u) * (65535 * a * w) == u * (65535 * a * w * b)) by (nonlinear_arith);
    let top = m * (1024 * e);
    assert((100 * m) * (u * e) == u * (m * (100 * e))) by (nonlinear_arith);
    assert((m * p) * 0x100_0000_0000 <= u * (m * (128 * e))) by (nonlinear_arith)
        requires
            0 <= p <= 65535 * u,
            m > 0,
            e == 0x2_0000_0000_0000,
    ;
    assert((b * u) * (m * (4 * e)) <= u * (m * (400 * e))) by (nonlinear_arith)
        requires
            0 <= b <= 100,
            u > 0,
            m > 0,
            e > 0,
    ;
    assert(u * (m * (100 * e)) + u * (m * (128 * e)) + u * (m * (400 * e)) <= u * top)
        by (nonlinear_arith)
        requires
            top == m * (1024 * e),
            u > 0,
            m > 0,
            e > 0,
    ;
    lemma_unscaled(100 * (m * r), 65535 * a * w * b, top, u);
}

/// Whether a value is what levels call for at an index of a ramp: `65535 * index / (size - 1)`, times
/// the share of its channel in the white point, times the brightness, to the nearest whole step. It
/// is off by half a step at most, but for less than `2^-32` of a step. A ramp of one entry holds its
/// end.
pub open spec fn is_called_for(value: int, place: int, index: int, size: int, levels: Levels) -> bool {
    let (a, m) = if size == 1 {
        (1, 1)
    } else {
        (index, size - 1)
    };
    let share = share_steps(place, levels.warmth as int);
    2 * apart(value * m * 100 * 0x40_0000_0000_0000, 65535 * a * share * levels.brightness) <= m
        * 100 * 0x40_0000_0000_0000 + m * 0x1000_0000
}

/// Every entry of a ramp is what the levels call for, at a warmth and a brightness of at most one
/// hundred percent. The ramps are those of red, green and blue, in this order.
pub proof fn ramps_hold_what_levels_call_for(place: int, index: int, size: int, levels: Levels)
    requires
        0 <= place < 3,
        0 <= index < size,
        levels.warmth <= 100,
        levels.brightness <= 100,
    ensures
        is_called_for(
            ramp_value(channel_at(place), index, size, levels),
            place,
            index,
            size,
            levels,
        ),
{
    let u = unit();
    let (a, m) = if size == 1 {
        (1, 1)
    } else {
        (index, size - 1)
    };
    let b = levels.brightness as int;
    let share = share_steps(place, levels.warmth as int);
    let channel = channel_at(place);
    let w = white_point(channel, levels.warmth);
    let input = ramp_input(index, size);
    lemma_share_steps(place, levels.warmth);
    lemma_white_point(channel, levels.warmth);
    lemma_input(index, size);
    lemma_output(input, w, levels.brightness);
    if size == 1 {
        lemma_counts(1);
        assert(rounded(1 * u, 1) == u);
    } else {
        lemma_rounded_scaled(index * u, size - 1, u);
    }
    let p1 = product(input, 65535 * u);
    let p2 = product(p1, w);
    let q = quotient(b * u, 100 * u);
    let p3 = product(p2, q);
    lemma_scale_close(a, m, input);
    lemma_share_close(a, m, p1, w);
    lemma_ratio(b, 100, 1);
    lemma_brightness_close(a, m, p2, w, b, q);
    lemma_product(p2, q, 65535, 1);
    assert(p3 == output(input, w, levels.brightness));
    wholes_are_nearest(p3);
    let v = whole(p3);
    assert(v <= 65535) by (nonlinear_arith)
        requires
            2 * apart(v * u, p3) <= u,
            p3 <= 65535 * u,
            u > 0,
    ;
    assert(v == ramp_value(channel, index, size, levels));
    let n = 100 * m;
    assert(2 * apart(n * (v * u), n * p3) <= n * u) by (nonlinear_arith)
        requires
            2 * apart(v * u, p3) <= u,
            n > 0,
    ;
    assert(n * p3 == 100 * (m * p3)) by (nonlinear_arith)
        requires
            n == 100 * m,
    ;
    let f = 0x1_0000_0000int;
    let g = 0x40_0000_0000_0000int;
    let left = v * m * 100 * g;
    let right = 65535 * a * share * b;
    assert(n * (v * u) == f * left) by (nonlinear_arith)
        requires
            n == 100 * m,
            u == f * g,
            left == v * m * 100 * g,
    ;
    assert(65535 * a * w * b == f * right) by (nonlinear_arith)
        requires
            w == share * f,
            right == 65535 * a * share * b,
    ;
    let most = m * 100 * g + m * 0x1000_0000;
    assert(n * u == f * (m * 100 * g)) by (nonlinear_arith)
        requires
            n == 100 * m,
            u == f * g,
    ;
    assert(2 * (m * 0x800_0000_0000_0000) == f * (m * 0x1000_0000)) by (nonlinear_arith)
        requires
            f == 0x1_0000_0000,
    ;
    assert(2 * apart(f * left, f * right) <= f * most) by (nonlinear_arith)
        requires
            2 * apart(f * left, f * right) <= f * (m * 100 * g) + f * (m * 0x1000_0000),
            most == m * 100 * g + m * 0x1000_0000,
    ;
    assert(2 * apart(left, right) <= most) by (nonlinear_arith)
        requires
            2 * apart(f * left, f * right) <= f * most,
            f > 0,
    ;
}

/// Brightness scales the ramps: at every size, the red ramp ends at that share of full output, to
/// the nearest step.
pub proof fn red_ramps_end_at_the_brightness(size: int, levels: Levels)
    requires
        size > 0,
        levels.warmth <= 100,
        levels.brightness <= 100,
    ensures
        2 * apart(
            100 * ramp_value(channel_at(0), size - 1, size, levels),
            65535 * levels.brightness,
        ) <= 100,
{
    ramps_hold_what_levels_call_for(0, size - 1, size, levels);
    let v = ramp_value(channel_at(0), size - 1, size, levels);
    let b = levels.brightness as int;
    let m = if size == 1 {
        1
    } else {
        size - 1
    };
    let g = 0x40_0000_0000_0000int;
    let off = apart(100 * v, 65535 * b);
    assert(v * m * 100 * g == (m * g) * (100 * v)) by (nonlinear_arith);
    assert(65535 * m * g * b == (m * g) * (65535 * b)) by (nonlinear_arith);
    assert(apart((m * g) * (100 * v), (m * g) * (65535 * b)) == (m * g) * off) by (nonlinear_arith)
        requires
            off == apart(100 * v, 65535 * b),
            m > 0,
            g > 0,
    ;
    assert(2 * off < 101) by (nonlinear_arith)
        requires
            2 * ((m * g) * off) <= m * 100 * g + m * 0x1000_0000,
            m > 0,
            g == 0x40_0000_0000_0000,
    ;
}

/// The colour temperature falls evenly with the warmth, from 6500 K to 2500 K.
pub proof fn warmth_lowers_the_temperature(warmth: u8)
    ensures
        warmth <= 100 ==> 100 * (6500 - kelvin(warmth)) == warmth * (6500 - 2500),
        warmth > 100 ==> kelvin(warmth) == 2500,
{
}

}
