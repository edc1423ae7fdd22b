//! Code page 437: the character set DOS and BIOS text-mode output use.
//! Bytes below 128 are ASCII; bytes 128-255 are accented letters,
//! box-drawing pieces and math/Greek symbols (not Latin-1).
use vstd::prelude::*;

verus! {

/// The character a byte of DOS/BIOS output stands for under code page 437
/// (the Unicode Consortium's published mapping).
pub open spec fn cp437_char(byte: u8) -> char {
    match byte {
        128u8 => '\u{00C7}',
        129u8 => '\u{00FC}',
        130u8 => '\u{00E9}',
        131u8 => '\u{00E2}',
        132u8 => '\u{00E4}',
        133u8 => '\u{00E0}',
        134u8 => '\u{00E5}',
        135u8 => '\u{00E7}',
        136u8 => '\u{00EA}',
        137u8 => '\u{00EB}',
        138u8 => '\u{00E8}',
        139u8 => '\u{00EF}',
        140u8 => '\u{00EE}',
        141u8 => '\u{00EC}',
        142u8 => '\u{00C4}',
        143u8 => '\u{00C5}',
        144u8 => '\u{00C9}',
        145u8 => '\u{00E6}',
        146u8 => '\u{00C6}',
        147u8 => '\u{00F4}',
        148u8 => '\u{00F6}',
        149u8 => '\u{00F2}',
        150u8 => '\u{00FB}',
        151u8 => '\u{00F9}',
        152u8 => '\u{00FF}',
        153u8 => '\u{00D6}',
        154u8 => '\u{00DC}',
        155u8 => '\u{00A2}',
        156u8 => '\u{00A3}',
        157u8 => '\u{00A5}',
        158u8 => '\u{20A7}',
        159u8 => '\u{0192}',
        160u8 => '\u{00E1}',
        161u8 => '\u{00ED}',
        162u8 => '\u{00F3}',
        163u8 => '\u{00FA}',
        164u8 => '\u{00F1}',
        165u8 => '\u{00D1}',
        166u8 => '\u{00AA}',
        167u8 => '\u{00BA}',
        168u8 => '\u{00BF}',
        169u8 => '\u{2310}',
        170u8 => '\u{00AC}',
        171u8 => '\u{00BD}',
        172u8 => '\u{00BC}',
        173u8 => '\u{00A1}',
        174u8 => '\u{00AB}',
        175u8 => '\u{00BB}',
        176u8 => '\u{2591}',
        177u8 => '\u{2592}',
        178u8 => '\u{2593}',
        179u8 => '\u{2502}',
        180u8 => '\u{2524}',
        181u8 => '\u{2561}',
        182u8 => '\u{2562}',
        183u8 => '\u{2556}',
        184u8 => '\u{2555}',
        185u8 => '\u{2563}',
        186u8 => '\u{2551}',
        187u8 => '\u{2557}',
        188u8 => '\u{255D}',
        189u8 => '\u{255C}',
        190u8 => '\u{255B}',
        191u8 => '\u{2510}',
        192u8 => '\u{2514}',
        193u8 => '\u{2534}',
        194u8 => '\u{252C}',
        195u8 => '\u{251C}',
        196u8 => '\u{2500}',
        197u8 => '\u{253C}',
        198u8 => '\u{255E}',
        199u8 => '\u{255F}',
        200u8 => '\u{255A}',
        201u8 => '\u{2554}',
        202u8 => '\u{2569}',
        203u8 => '\u{2566}',
        204u8 => '\u{2560}',
        205u8 => '\u{2550}',
        206u8 => '\u{256C}',
        207u8 => '\u{2567}',
        208u8 => '\u{2568}',
        209u8 => '\u{2564}',
        210u8 => '\u{2565}',
        211u8 => '\u{2559}',
        212u8 => '\u{2558}',
        213u8 => '\u{2552}',
        214u8 => '\u{2553}',
        215u8 => '\u{256B}',
        216u8 => '\u{256A}',
        217u8 => '\u{2518}',
        218u8 => '\u{250C}',
        219u8 => '\u{2588}',
        220u8 => '\u{2584}',
        221u8 => '\u{258C}',
        222u8 => '\u{2590}',
        223u8 => '\u{2580}',
        224u8 => '\u{03B1}',
        225u8 => '\u{00DF}',
        226u8 => '\u{0393}',
        227u8 => '\u{03C0}',
        228u8 => '\u{03A3}',
        229u8 => '\u{03C3}',
        230u8 => '\u{00B5}',
        231u8 => '\u{03C4}',
        232u8 => '\u{03A6}',
        233u8 => '\u{0398}',
        234u8 => '\u{03A9}',
        235u8 => '\u{03B4}',
        236u8 => '\u{221E}',
        237u8 => '\u{03C6}',
        238u8 => '\u{03B5}',
        239u8 => '\u{2229}',
        240u8 => '\u{2261}',
        241u8 => '\u{00B1}',
        242u8 => '\u{2265}',
        243u8 => '\u{2264}',
        244u8 => '\u{2320}',
        245u8 => '\u{2321}',
        246u8 => '\u{00F7}',
        247u8 => '\u{2248}',
        248u8 => '\u{00B0}',
        249u8 => '\u{2219}',
        250u8 => '\u{00B7}',
        251u8 => '\u{221A}',
        252u8 => '\u{207F}',
        253u8 => '\u{00B2}',
        254u8 => '\u{25A0}',
        255u8 => '\u{00A0}',
        _ => byte as char,
    }
}

/// Maps a raw DOS/BIOS output byte to the character it represents under
/// code page 437.
pub fn to_char(byte: u8) -> (c: char)
    ensures
        c == cp437_char(byte),
        byte < 128 ==> c == byte as char,
{
    match byte {
        128u8 => '\u{00C7}',
        129u8 => '\u{00FC}',
        130u8 => '\u{00E9}',
        131u8 => '\u{00E2}',
        132u8 => '\u{00E4}',
        133u8 => '\u{00E0}',
        134u8 => '\u{00E5}',
        135u8 => '\u{00E7}',
        136u8 => '\u{00EA}',
        137u8 => '\u{00EB}',
        138u8 => '\u{00E8}',
        139u8 => '\u{00EF}',
        140u8 => '\u{00EE}',
        141u8 => '\u{00EC}',
        142u8 => '\u{00C4}',
        143u8 => '\u{00C5}',
        144u8 => '\u{00C9}',
        145u8 => '\u{00E6}',
        146u8 => '\u{00C6}',
        147u8 => '\u{00F4}',
        148u8 => '\u{00F6}',
        149u8 => '\u{00F2}',
        150u8 => '\u{00FB}',
        151u8 => '\u{00F9}',
        152u8 => '\u{00FF}',
        153u8 => '\u{00D6}',
        154u8 => '\u{00DC}',
        155u8 => '\u{00A2}',
        156u8 => '\u{00A3}',
        157u8 => '\u{00A5}',
        158u8 => '\u{20A7}',
        159u8 => '\u{0192}',
        160u8 => '\u{00E1}',
        161u8 => '\u{00ED}',
        162u8 => '\u{00F3}',
        163u8 => '\u{00FA}',
        164u8 => '\u{00F1}',
        165u8 => '\u{00D1}',
        166u8 => '\u{00AA}',
        167u8 => '\u{00BA}',
        168u8 => '\u{00BF}',
        169u8 => '\u{2310}',
        170u8 => '\u{00AC}',
        171u8 => '\u{00BD}',
        172u8 => '\u{00BC}',
        173u8 => '\u{00A1}',
        174u8 => '\u{00AB}',
        175u8 => '\u{00BB}',
        176u8 => '\u{2591}',
        177u8 => '\u{2592}',
        178u8 => '\u{2593}',
        179u8 => '\u{2502}',
        180u8 => '\u{2524}',
        181u8 => '\u{2561}',
        182u8 => '\u{2562}',
        183u8 => '\u{2556}',
        184u8 => '\u{2555}',
        185u8 => '\u{2563}',
        186u8 => '\u{2551}',
        187u8 => '\u{2557}',
        188u8 => '\u{255D}',
        189u8 => '\u{255C}',
        190u8 => '\u{255B}',
        191u8 => '\u{2510}',
        192u8 => '\u{2514}',
        193u8 => '\u{2534}',
        194u8 => '\u{252C}',
        195u8 => '\u{251C}',
        196u8 => '\u{2500}',
        197u8 => '\u{253C}',
        198u8 => '\u{255E}',
        199u8 => '\u{255F}',
        200u8 => '\u{255A}',
        201u8 => '\u{2554}',
        202u8 => '\u{2569}',
        203u8 => '\u{2566}',
        204u8 => '\u{2560}',
        205u8 => '\u{2550}',
        206u8 => '\u{256C}',
        207u8 => '\u{2567}',
        208u8 => '\u{2568}',
        209u8 => '\u{2564}',
        210u8 => '\u{2565}',
        211u8 => '\u{2559}',
        212u8 => '\u{2558}',
        213u8 => '\u{2552}',
        214u8 => '\u{2553}',
        215u8 => '\u{256B}',
        216u8 => '\u{256A}',
        217u8 => '\u{2518}',
        218u8 => '\u{250C}',
        219u8 => '\u{2588}',
        220u8 => '\u{2584}',
        221u8 => '\u{258C}',
        222u8 => '\u{2590}',
        223u8 => '\u{2580}',
        224u8 => '\u{03B1}',
        225u8 => '\u{00DF}',
        226u8 => '\u{0393}',
        227u8 => '\u{03C0}',
        228u8 => '\u{03A3}',
        229u8 => '\u{03C3}',
        230u8 => '\u{00B5}',
        231u8 => '\u{03C4}',
        232u8 => '\u{03A6}',
        233u8 => '\u{0398}',
        234u8 => '\u{03A9}',
        235u8 => '\u{03B4}',
        236u8 => '\u{221E}',
        237u8 => '\u{03C6}',
        238u8 => '\u{03B5}',
        239u8 => '\u{2229}',
        240u8 => '\u{2261}',
        241u8 => '\u{00B1}',
        242u8 => '\u{2265}',
        243u8 => '\u{2264}',
        244u8 => '\u{2320}',
        245u8 => '\u{2321}',
        246u8 => '\u{00F7}',
        247u8 => '\u{2248}',
        248u8 => '\u{00B0}',
        249u8 => '\u{2219}',
        250u8 => '\u{00B7}',
        251u8 => '\u{221A}',
        252u8 => '\u{207F}',
        253u8 => '\u{00B2}',
        254u8 => '\u{25A0}',
        255u8 => '\u{00A0}',
        _ => byte as char,
    }
}

} // verus!
