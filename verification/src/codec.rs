//! The text form of an artifact: nineteen lines, each a name, `=` and a value,
//! in a fixed order. Numbers are written in decimal, switches as `0` or `1`,
//! bytes in hexadecimal, and strings as the hexadecimal of their UTF-8 bytes.
//! A part that an artifact lacks is written as zero or as no bytes, behind a
//! switch that says so. Every artifact has exactly one text, and only such
//! text is read back.

use vstd::prelude::*;
use vstd::slice::slice_to_vec;
use vstd::string::*;
use vstd::utf8::{
    decode_utf8,
    encode_utf8,
    encode_utf8_decode_utf8,
    encode_utf8_valid_utf8,
    is_ascii_chars,
    is_ascii_chars_encode_utf8,
    valid_utf8,
};
use crate::artifact::{Artifact, ArtifactView};
use crate::decimal::{
    decimal_bytes,
    decimal_digits,
    decimal_text,
    lemma_digits_round_trip,
    lemma_number_round_trip,
    lemma_signed_round_trip,
    parse_number,
    parse_signed,
    parsed_number,
    parsed_signed,
    push_decimal_digits,
};
use crate::error::Error;
use crate::hex_text::{
    hex_decode,
    hex_decoding,
    hex_encode,
    hex_encoding,
    is_hex,
    is_hex_char,
    lemma_hex_round_trip,
};
use crate::params::{LayeredParams, ProofConfig, ProofKind};
use crate::primitive::{PayloadView, ProofPayload};
use crate::seed::{Seed, SeedView};
use crate::text::{
    append_bytes,
    free_of,
    lemma_split_joined,
    same_bytes,
    split_at_first,
    split_first,
    string_from_utf8,
};

verus! {

/// The byte that ends a line.
pub const LINE_BREAK: u8 = 10;

/// The byte between a name and its value.
pub const SEPARATOR: u8 = 61;

/// The number of lines in the text of an artifact.
pub const FIELD_COUNT: usize = 19;

/// The names of the lines, in their order.
pub open spec fn field_names() -> Seq<Seq<char>> {
    seq![
        "prover"@,
        "timestamp"@,
        "seed"@,
        "kind"@,
        "size"@,
        "degree"@,
        "vde"@,
        "challenges"@,
        "layered"@,
        "expansion_degree"@,
        "layers"@,
        "tapered"@,
        "taper_layers"@,
        "taper_bits"@,
        "proof_kind"@,
        "proof"@,
        "commitment"@,
        "commitment_star"@,
        "tau"@,
    ]
}

/// The text of a number.
pub open spec fn number_field(n: u64) -> Seq<u8> {
    decimal_digits(n as nat)
}

/// The text of a switch.
pub open spec fn flag_field(on: bool) -> Seq<u8> {
    number_field(
        if on {
            1
        } else {
            0
        },
    )
}

/// The text of bytes: their hexadecimal digits.
pub open spec fn hex_field(bytes: Seq<u8>) -> Seq<u8> {
    encode_utf8(hex_encoding(bytes))
}

/// The text of a string: the hexadecimal digits of its UTF-8 bytes.
pub open spec fn string_field(chars: Seq<char>) -> Seq<u8> {
    hex_field(encode_utf8(chars))
}

/// The layered parameters written for a configuration that has none.
pub open spec fn absent_layered() -> LayeredParams {
    LayeredParams {
        expansion_degree: 0,
        layer_count: 0,
        is_tapered: false,
        taper_layer_count: 0,
        taper_fraction_bits: 0,
    }
}

/// The layered parameters that are written for `config`.
pub open spec fn layered_written(config: ProofConfig) -> LayeredParams {
    match config.layered_params {
        Some(layered) => layered,
        None => absent_layered(),
    }
}

/// The bytes of the proof in `payload`.
pub open spec fn payload_bytes(payload: PayloadView) -> Seq<u8> {
    match payload {
        PayloadView::SingleLayer(bytes) => bytes,
        PayloadView::Layered(bytes) => bytes,
    }
}

/// The bytes that are written for an optional commitment.
pub open spec fn commitment_written(commitment: Option<Seq<u8>>) -> Seq<u8> {
    match commitment {
        Some(bytes) => bytes,
        None => Seq::empty(),
    }
}

/// The values of the lines of `artifact`, in their order.
pub open spec fn values_of(artifact: ArtifactView) -> Seq<Seq<u8>> {
    let layered = layered_written(artifact.config);
    seq![
        string_field(artifact.prover_name),
        decimal_text(artifact.seed.timestamp as int),
        string_field(artifact.seed.text),
        flag_field(artifact.config.kind == ProofKind::Layered),
        number_field(artifact.config.size_bytes as u64),
        number_field(artifact.config.degree as u64),
        number_field(artifact.config.vde_iterations as u64),
        number_field(artifact.config.challenge_count as u64),
        flag_field(artifact.config.layered_params is Some),
        number_field(layered.expansion_degree as u64),
        number_field(layered.layer_count as u64),
        flag_field(layered.is_tapered),
        number_field(layered.taper_layer_count as u64),
        number_field(layered.taper_fraction_bits),
        flag_field(artifact.payload.kind() == ProofKind::Layered),
        hex_field(payload_bytes(artifact.payload)),
        flag_field(artifact.commitment_star is Some),
        hex_field(commitment_written(artifact.commitment_star)),
        hex_field(artifact.public_tau),
    ]
}

/// One line: the name, `=`, the value, and a line break.
pub open spec fn line(name: Seq<char>, value: Seq<u8>) -> Seq<u8> {
    encode_utf8(name) + seq![SEPARATOR] + value + seq![LINE_BREAK]
}

/// The lines from the `k`-th on, one after another.
pub open spec fn lines_from(names: Seq<Seq<char>>, values: Seq<Seq<u8>>, k: int) -> Seq<u8>
    decreases names.len() - k,
{
    if k < 0 || k >= names.len() {
        Seq::empty()
    } else {
        line(names[k], values[k]) + lines_from(names, values, k + 1)
    }
}

/// The lines before the `k`-th, one after another.
pub open spec fn lines_before(names: Seq<Seq<char>>, values: Seq<Seq<u8>>, k: int) -> Seq<u8>
    decreases k,
{
    if k <= 0 {
        Seq::empty()
    } else {
        lines_before(names, values, k - 1) + line(names[k - 1], values[k - 1])
    }
}

/// The text of `artifact`.
pub open spec fn encoding(artifact: ArtifactView) -> Seq<u8> {
    lines_from(field_names(), values_of(artifact), 0)
}

/// The value of the first line of `text` and what follows the line, or `None`
/// where `text` has no line break or the line no `=`.
pub open spec fn take_value(text: Seq<u8>) -> Option<(Seq<u8>, Seq<u8>)> {
    match split_at_first(text, LINE_BREAK) {
        Some((first, rest)) => match split_at_first(first, SEPARATOR) {
            Some((name, value)) => Some((value, rest)),
            None => None,
        },
        None => None,
    }
}

/// The values of the `count` lines that make up `text`, or `None` where `text`
/// is not `count` lines and nothing more.
pub open spec fn take_values(text: Seq<u8>, count: nat) -> Option<Seq<Seq<u8>>>
    decreases count,
{
    if count == 0 {
        if text.len() == 0 {
            Some(Seq::empty())
        } else {
            None
        }
    } else {
        match take_value(text) {
            Some((value, rest)) => match take_values(rest, (count - 1) as nat) {
                Some(more) => Some(seq![value] + more),
                None => None,
            },
            None => None,
        }
    }
}

/// The switch that `s` writes.
pub open spec fn parsed_flag(s: Seq<u8>) -> Option<bool> {
    match parsed_number(s) {
        Some(n) => if n == 0 {
            Some(false)
        } else if n == 1 {
            Some(true)
        } else {
            None
        },
        None => None,
    }
}

/// The size or count that `s` writes.
pub open spec fn parsed_size(s: Seq<u8>) -> Option<usize> {
    match parsed_number(s) {
        Some(n) => if n <= usize::MAX {
            Some(n as usize)
        } else {
            None
        },
        None => None,
    }
}

/// The bytes that `s` writes in hexadecimal.
pub open spec fn parsed_hex(s: Seq<u8>) -> Option<Seq<u8>> {
    if valid_utf8(s) && is_hex(decode_utf8(s)) {
        Some(hex_decoding(decode_utf8(s)))
    } else {
        None
    }
}

/// The string that `s` writes.
pub open spec fn parsed_string(s: Seq<u8>) -> Option<Seq<char>> {
    match parsed_hex(s) {
        Some(bytes) => if valid_utf8(bytes) {
            Some(decode_utf8(bytes))
        } else {
            None
        },
        None => None,
    }
}

/// The seed that the values write.
pub open spec fn parsed_seed(values: Seq<Seq<u8>>) -> Option<SeedView> {
    if parsed_signed(values[1]) is Some && parsed_string(values[2]) is Some {
        Some(
            SeedView {
                timestamp: parsed_signed(values[1])->Some_0,
                text: parsed_string(values[2])->Some_0,
            },
        )
    } else {
        None
    }
}

/// The layered parameters that the values write, where the switch before
/// them is on.
pub open spec fn parsed_layered(values: Seq<Seq<u8>>) -> Option<LayeredParams> {
    if parsed_size(values[9]) is Some && parsed_size(values[10]) is Some && parsed_flag(
        values[11],
    ) is Some && parsed_size(values[12]) is Some && parsed_number(values[13]) is Some {
        Some(
            LayeredParams {
                expansion_degree: parsed_size(values[9])->Some_0,
                layer_count: parsed_size(values[10])->Some_0,
                is_tapered: parsed_flag(values[11])->Some_0,
                taper_layer_count: parsed_size(values[12])->Some_0,
                taper_fraction_bits: parsed_number(values[13])->Some_0,
            },
        )
    } else {
        None
    }
}

/// The configuration that the values write.
pub open spec fn parsed_config(values: Seq<Seq<u8>>) -> Option<ProofConfig> {
    if parsed_flag(values[3]) is Some && parsed_size(values[4]) is Some && parsed_size(
        values[5],
    ) is Some && parsed_size(values[6]) is Some && parsed_size(values[7]) is Some && parsed_flag(
        values[8],
    ) is Some && (parsed_flag(values[8])->Some_0 ==> parsed_layered(values) is Some) {
        Some(
            ProofConfig {
                kind: if parsed_flag(values[3])->Some_0 {
                    ProofKind::Layered
                } else {
                    ProofKind::SingleLayer
                },
                size_bytes: parsed_size(values[4])->Some_0,
                degree: parsed_size(values[5])->Some_0,
                vde_iterations: parsed_size(values[6])->Some_0,
                challenge_count: parsed_size(values[7])->Some_0,
                layered_params: if parsed_flag(values[8])->Some_0 {
                    parsed_layered(values)
                } else {
                    None
                },
            },
        )
    } else {
        None
    }
}

/// The proof that the values write.
pub open spec fn parsed_payload(values: Seq<Seq<u8>>) -> Option<PayloadView> {
    if parsed_flag(values[14]) is Some && parsed_hex(values[15]) is Some {
        Some(
            if parsed_flag(values[14])->Some_0 {
                PayloadView::Layered(parsed_hex(values[15])->Some_0)
            } else {
                PayloadView::SingleLayer(parsed_hex(values[15])->Some_0)
            },
        )
    } else {
        None
    }
}

/// The optional commitment that the values write.
pub open spec fn parsed_commitment(values: Seq<Seq<u8>>) -> Option<Option<Seq<u8>>> {
    if parsed_flag(values[16]) is Some && parsed_hex(values[17]) is Some {
        Some(
            if parsed_flag(values[16])->Some_0 {
                parsed_hex(values[17])
            } else {
                None
            },
        )
    } else {
        None
    }
}

/// The artifact that the values write.
pub open spec fn artifact_from(values: Seq<Seq<u8>>) -> Option<ArtifactView> {
    if parsed_string(values[0]) is Some && parsed_seed(values) is Some && parsed_config(values)
        is Some && parsed_payload(values) is Some && parsed_commitment(values) is Some
        && parsed_hex(values[18]) is Some {
        Some(
            ArtifactView {
                prover_name: parsed_string(values[0])->Some_0,
                seed: parsed_seed(values)->Some_0,
                config: parsed_config(values)->Some_0,
                payload: parsed_payload(values)->Some_0,
                commitment_star: parsed_commitment(values)->Some_0,
                public_tau: parsed_hex(values[18])->Some_0,
            },
        )
    } else {
        None
    }
}

/// The artifact that a reading of `text`, line by line, gives. The reading
/// looks at no name, and reads over leading zeros and capital digits; what it
/// gives is accepted only where `text` is the artifact's own text.
pub open spec fn parsed(text: Seq<u8>) -> Option<ArtifactView> {
    match take_values(text, FIELD_COUNT as nat) {
        Some(values) => artifact_from(values),
        None => None,
    }
}

/// Whether every byte of `s` is ASCII.
pub open spec fn is_ascii_text(s: Seq<u8>) -> bool {
    forall|i: int| 0 <= i < s.len() ==> #[trigger] s[i] < 128
}

/// Whether `name` can name a line: its bytes are ASCII and hold neither `=`
/// nor a line break.
pub open spec fn is_label(name: Seq<char>) -> bool {
    &&& is_ascii_text(encode_utf8(name))
    &&& free_of(encode_utf8(name), SEPARATOR)
    &&& free_of(encode_utf8(name), LINE_BREAK)
}

/// A name made of small letters and underscores can name a line.
proof fn lemma_label(name: Seq<char>)
    requires
        forall|i: int| 0 <= i < name.len() ==> 'a' <= #[trigger] name[i] <= 'z' || name[i] == '_',
    ensures
        is_label(name),
{
    assert(is_ascii_chars(name));
    is_ascii_chars_encode_utf8(name);
    let bytes = encode_utf8(name);
    assert forall|i: int| 0 <= i < bytes.len() implies #[trigger] bytes[i] != SEPARATOR
        && bytes[i] != LINE_BREAK && bytes[i] < 128 by {
        assert(name[i] as u8 == bytes[i]);
    }
}

/// Every name of a line can name a line.
proof fn lemma_field_names_are_labels()
    ensures
        field_names().len() == FIELD_COUNT,
        forall|k: int| 0 <= k < FIELD_COUNT ==> is_label(#[trigger] field_names()[k]),
{
    reveal_strlit("prover");
    reveal_strlit("timestamp");
    reveal_strlit("seed");
    reveal_strlit("kind");
    reveal_strlit("size");
    reveal_strlit("degree");
    reveal_strlit("vde");
    reveal_strlit("challenges");
    reveal_strlit("layered");
    reveal_strlit("expansion_degree");
    reveal_strlit("layers");
    reveal_strlit("tapered");
    reveal_strlit("taper_layers");
    reveal_strlit("taper_bits");
    reveal_strlit("proof_kind");
    reveal_strlit("proof");
    reveal_strlit("commitment");
    reveal_strlit("commitment_star");
    reveal_strlit("tau");
    lemma_label("prover"@);
    lemma_label("timestamp"@);
    lemma_label("seed"@);
    lemma_label("kind"@);
    lemma_label("size"@);
    lemma_label("degree"@);
    lemma_label("vde"@);
    lemma_label("challenges"@);
    lemma_label("layered"@);
    lemma_label("expansion_degree"@);
    lemma_label("layers"@);
    lemma_label("tapered"@);
    lemma_label("taper_layers"@);
    lemma_label("taper_bits"@);
    lemma_label("proof_kind"@);
    lemma_label("proof"@);
    lemma_label("commitment"@);
    lemma_label("commitment_star"@);
    lemma_label("tau"@);
}

/// The text of a number holds no line break and is read back as the number.
proof fn lemma_number_field(n: u64)
    ensures
        is_ascii_text(number_field(n)),
        free_of(number_field(n), LINE_BREAK),
        parsed_number(number_field(n)) == Some(n),
{
    lemma_digits_round_trip(n as nat);
    lemma_number_round_trip(n);
}

/// The text of a size holds no line break and is read back as the size.
proof fn lemma_size_field(n: usize)
    ensures
        is_ascii_text(number_field(n as u64)),
        free_of(number_field(n as u64), LINE_BREAK),
        parsed_size(number_field(n as u64)) == Some(n),
{
    lemma_number_field(n as u64);
}

/// The text of a switch holds no line break and is read back as the switch.
proof fn lemma_flag_field(on: bool)
    ensures
        is_ascii_text(flag_field(on)),
        free_of(flag_field(on), LINE_BREAK),
        parsed_flag(flag_field(on)) == Some(on),
{
    lemma_number_field(0);
    lemma_number_field(1);
}

/// The text of a signed number holds no line break and is read back as the
/// number.
proof fn lemma_signed_field(i: i32)
    ensures
        is_ascii_text(decimal_text(i as int)),
        free_of(decimal_text(i as int), LINE_BREAK),
        parsed_signed(decimal_text(i as int)) == Some(i),
{
    lemma_signed_round_trip(i);
    if i < 0 {
        lemma_digits_round_trip((-(i as int)) as nat);
    } else {
        lemma_digits_round_trip(i as nat);
    }
}

/// The text of bytes holds no line break and is read back as the bytes.
proof fn lemma_hex_field(bytes: Seq<u8>)
    ensures
        is_ascii_text(hex_field(bytes)),
        free_of(hex_field(bytes), LINE_BREAK),
        parsed_hex(hex_field(bytes)) == Some(bytes),
{
    let chars = hex_encoding(bytes);
    lemma_hex_round_trip(bytes);
    assert(is_ascii_chars(chars)) by {
        assert forall|i: int| 0 <= i < chars.len() implies '\0' <= #[trigger] chars[i]
            <= '\u{7f}' by {
            assert(is_hex_char(chars[i]));
        }
    }
    is_ascii_chars_encode_utf8(chars);
    encode_utf8_valid_utf8(chars);
    encode_utf8_decode_utf8(chars);
    let written = hex_field(bytes);
    assert forall|i: int| 0 <= i < written.len() implies #[trigger] written[i] != LINE_BREAK
        && written[i] < 128 by {
        assert(chars[i] as u8 == written[i]);
        assert(is_hex_char(chars[i]));
    }
}

/// The text of a string holds no line break and is read back as the string.
proof fn lemma_string_field(chars: Seq<char>)
    ensures
        is_ascii_text(string_field(chars)),
        free_of(string_field(chars), LINE_BREAK),
        parsed_string(string_field(chars)) == Some(chars),
{
    lemma_hex_field(encode_utf8(chars));
    encode_utf8_valid_utf8(chars);
    encode_utf8_decode_utf8(chars);
}

/// Every value of an artifact is ASCII and free of line breaks, and the
/// values are read back as the artifact.
proof fn lemma_values_round_trip(artifact: ArtifactView)
    ensures
        values_of(artifact).len() == FIELD_COUNT,
        forall|k: int|
            0 <= k < FIELD_COUNT ==> free_of(#[trigger] values_of(artifact)[k], LINE_BREAK),
        forall|k: int| 0 <= k < FIELD_COUNT ==> is_ascii_text(#[trigger] values_of(artifact)[k]),
        artifact_from(values_of(artifact)) == Some(artifact),
{
    let values = values_of(artifact);
    let layered = layered_written(artifact.config);
    lemma_string_field(artifact.prover_name);
    lemma_signed_field(artifact.seed.timestamp);
    lemma_string_field(artifact.seed.text);
    lemma_flag_field(artifact.config.kind == ProofKind::Layered);
    lemma_size_field(artifact.config.size_bytes);
    lemma_size_field(artifact.config.degree);
    lemma_size_field(artifact.config.vde_iterations);
    lemma_size_field(artifact.config.challenge_count);
    lemma_flag_field(artifact.config.layered_params is Some);
    lemma_size_field(layered.expansion_degree);
    lemma_size_field(layered.layer_count);
    lemma_flag_field(layered.is_tapered);
    lemma_size_field(layered.taper_layer_count);
    lemma_number_field(layered.taper_fraction_bits);
    lemma_flag_field(artifact.payload.kind() == ProofKind::Layered);
    lemma_hex_field(payload_bytes(artifact.payload));
    lemma_flag_field(artifact.commitment_star is Some);
    lemma_hex_field(commitment_written(artifact.commitment_star));
    lemma_hex_field(artifact.public_tau);
    assert(parsed_seed(values) == Some(artifact.seed));
    assert(parsed_config(values) == Some(artifact.config));
    assert(parsed_payload(values) == Some(artifact.payload));
    assert(parsed_commitment(values) == Some(artifact.commitment_star));
}

/// Lines of labels and of values without line breaks are taken apart into
/// their values again.
proof fn lemma_take_lines(names: Seq<Seq<char>>, values: Seq<Seq<u8>>, k: int)
    requires
        names.len() == values.len(),
        0 <= k <= names.len(),
        forall|i: int| 0 <= i < names.len() ==> is_label(#[trigger] names[i]),
        forall|i: int| 0 <= i < values.len() ==> free_of(#[trigger] values[i], LINE_BREAK),
    ensures
        take_values(lines_from(names, values, k), (names.len() - k) as nat) == Some(
            values.subrange(k, values.len() as int),
        ),
    decreases names.len() - k,
{
    if k == names.len() {
        assert(values.subrange(k, values.len() as int) =~= Seq::<Seq<u8>>::empty());
    } else {
        lemma_take_lines(names, values, k + 1);
        let name = encode_utf8(names[k]);
        let value = values[k];
        let rest = lines_from(names, values, k + 1);
        let head = name + seq![SEPARATOR] + value;
        let text = lines_from(names, values, k);
        assert(is_label(names[k]));
        assert(free_of(value, LINE_BREAK));
        assert(free_of(head, LINE_BREAK)) by {
            assert forall|i: int| 0 <= i < head.len() implies #[trigger] head[i]
                != LINE_BREAK by {
                if i < name.len() {
                    assert(head[i] == name[i]);
                } else if i > name.len() {
                    assert(head[i] == value[i - name.len() - 1]);
                }
            }
        }
        assert(text =~= head + seq![LINE_BREAK] + rest);
        lemma_split_joined(head, LINE_BREAK, rest);
        lemma_split_joined(name, SEPARATOR, value);
        assert(take_value(text) == Some((value, rest)));
        assert(seq![value] + values.subrange(k + 1, values.len() as int) =~= values.subrange(
            k,
            values.len() as int,
        ));
    }
}

/// Reading undoes writing: the text of an artifact is read back as the
/// artifact.
pub proof fn lemma_parsed_encoding(artifact: ArtifactView)
    ensures
        parsed(encoding(artifact)) == Some(artifact),
{
    lemma_field_names_are_labels();
    lemma_values_round_trip(artifact);
    let values = values_of(artifact);
    lemma_take_lines(field_names(), values, 0);
    assert(values.subrange(0, values.len() as int) =~= values);
}

/// Lines of labels and of ASCII values are ASCII.
proof fn lemma_lines_are_ascii(names: Seq<Seq<char>>, values: Seq<Seq<u8>>, k: int)
    requires
        names.len() == values.len(),
        0 <= k <= names.len(),
        forall|i: int| 0 <= i < names.len() ==> is_label(#[trigger] names[i]),
        forall|i: int| 0 <= i < values.len() ==> is_ascii_text(#[trigger] values[i]),
    ensures
        is_ascii_text(lines_from(names, values, k)),
    decreases names.len() - k,
{
    if k < names.len() {
        lemma_lines_are_ascii(names, values, k + 1);
        let name = encode_utf8(names[k]);
        let value = values[k];
        let rest = lines_from(names, values, k + 1);
        let text = lines_from(names, values, k);
        assert(is_label(names[k]));
        assert(is_ascii_text(value));
        assert forall|i: int| 0 <= i < text.len() implies #[trigger] text[i] < 128 by {
            if i < name.len() {
                assert(text[i] == name[i]);
            } else if i == name.len() {
                assert(text[i] == SEPARATOR);
            } else if i < name.len() + 1 + value.len() {
                assert(text[i] == value[i - name.len() - 1]);
            } else if i == name.len() + 1 + value.len() {
                assert(text[i] == LINE_BREAK);
            } else {
                assert(text[i] == rest[i - name.len() - value.len() - 2]);
            }
        }
    }
}

/// The text of an artifact is ASCII.
pub proof fn lemma_encoding_is_ascii(artifact: ArtifactView)
    ensures
        is_ascii_text(encoding(artifact)),
{
    lemma_field_names_are_labels();
    lemma_values_round_trip(artifact);
    lemma_lines_are_ascii(field_names(), values_of(artifact), 0);
}

/// No two artifacts have the same text.
pub proof fn lemma_encoding_is_injective(first: ArtifactView, second: ArtifactView)
    requires
        encoding(first) == encoding(second),
    ensures
        first == second,
{
    lemma_parsed_encoding(first);
    lemma_parsed_encoding(second);
}

/// The lines before the last and the lines from the first are the same text.
proof fn lemma_lines_join(names: Seq<Seq<char>>, values: Seq<Seq<u8>>, k: int)
    requires
        0 <= k <= names.len(),
    ensures
        lines_before(names, values, k) + lines_from(names, values, k) == lines_from(
            names,
            values,
            0,
        ),
    decreases k,
{
    if k == 0 {
        assert(lines_before(names, values, 0) + lines_from(names, values, 0) =~= lines_from(
            names,
            values,
            0,
        ));
    } else {
        lemma_lines_join(names, values, k - 1);
        assert(lines_before(names, values, k) + lines_from(names, values, k) =~= lines_before(
            names,
            values,
            k - 1,
        ) + lines_from(names, values, k - 1));
    }
}

/// What a list of texts holds, text by text.
pub open spec fn contents(values: Seq<&[u8]>) -> Seq<Seq<u8>> {
    Seq::new(values.len(), |k: int| values[k]@)
}

/// The name of the `k`-th line.
fn field_name(k: usize) -> (name: &'static str)
    requires
        k < FIELD_COUNT,
    ensures
        name@ == field_names()[k as int],
{
    if k == 0 {
        "prover"
    } else if k == 1 {
        "timestamp"
    } else if k == 2 {
        "seed"
    } else if k == 3 {
        "kind"
    } else if k == 4 {
        "size"
    } else if k == 5 {
        "degree"
    } else if k == 6 {
        "vde"
    } else if k == 7 {
        "challenges"
    } else if k == 8 {
        "layered"
    } else if k == 9 {
        "expansion_degree"
    } else if k == 10 {
        "layers"
    } else if k == 11 {
        "tapered"
    } else if k == 12 {
        "taper_layers"
    } else if k == 13 {
        "taper_bits"
    } else if k == 14 {
        "proof_kind"
    } else if k == 15 {
        "proof"
    } else if k == 16 {
        "commitment"
    } else if k == 17 {
        "commitment_star"
    } else {
        "tau"
    }
}

/// Writes a number.
fn write_number(n: u64) -> (value: Vec<u8>)
    ensures
        value@ == number_field(n),
{
    let mut value: Vec<u8> = Vec::new();
    push_decimal_digits(n, &mut value);
    assert(value@ =~= number_field(n));
    value
}

/// Writes a switch.
fn write_flag(on: bool) -> (value: Vec<u8>)
    ensures
        value@ == flag_field(on),
{
    if on {
        write_number(1)
    } else {
        write_number(0)
    }
}

/// Writes bytes in hexadecimal.
fn write_hex(bytes: &[u8]) -> (value: Vec<u8>)
    ensures
        value@ == hex_field(bytes@),
{
    let digits = hex_encode(bytes);
    slice_to_vec(digits.as_str().as_bytes())
}

/// Writes a string.
fn write_string(text: &str) -> (value: Vec<u8>)
    ensures
        value@ == string_field(text@),
{
    write_hex(text.as_bytes())
}

/// Writes the values of the lines of `artifact`.
fn write_values(artifact: &Artifact) -> (values: Vec<Vec<u8>>)
    ensures
        values@.len() == FIELD_COUNT,
        forall|k: int| 0 <= k < FIELD_COUNT ==> (#[trigger] values@[k])@ == values_of(artifact@)[k],
{
    let config = &artifact.config;
    let layered = match config.layered_params {
        Some(layered) => layered,
        None => LayeredParams {
            expansion_degree: 0,
            layer_count: 0,
            is_tapered: false,
            taper_layer_count: 0,
            taper_fraction_bits: 0,
        },
    };
    let empty: Vec<u8> = Vec::new();
    let mut values: Vec<Vec<u8>> = Vec::new();
    values.push(write_string(artifact.prover_name.as_str()));
    values.push(decimal_bytes(artifact.seed.timestamp));
    values.push(write_string(artifact.seed.seed.as_str()));
    values.push(
        write_flag(
            match config.kind {
                ProofKind::Layered => true,
                ProofKind::SingleLayer => false,
            },
        ),
    );
    values.push(write_number(config.size_bytes as u64));
    values.push(write_number(config.degree as u64));
    values.push(write_number(config.vde_iterations as u64));
    values.push(write_number(config.challenge_count as u64));
    values.push(write_flag(config.layered_params.is_some()));
    values.push(write_number(layered.expansion_degree as u64));
    values.push(write_number(layered.layer_count as u64));
    values.push(write_flag(layered.is_tapered));
    values.push(write_number(layered.taper_layer_count as u64));
    values.push(write_number(layered.taper_fraction_bits));
    match &artifact.payload {
        ProofPayload::SingleLayer(bytes) => {
            values.push(write_flag(false));
            values.push(write_hex(bytes.as_slice()));
        },
        ProofPayload::Layered(bytes) => {
            values.push(write_flag(true));
            values.push(write_hex(bytes.as_slice()));
        },
    }
    match &artifact.commitment_star {
        Some(bytes) => {
            values.push(write_flag(true));
            values.push(write_hex(bytes.as_slice()));
        },
        None => {
            values.push(write_flag(false));
            values.push(write_hex(empty.as_slice()));
        },
    }
    values.push(write_hex(artifact.public_tau.as_slice()));
    values
}

/// Writes `artifact` as text, which is ASCII.
pub fn encode(artifact: &Artifact) -> (text: Vec<u8>)
    ensures
        text@ == encoding(artifact@),
        is_ascii_text(text@),
{
    proof {
        lemma_encoding_is_ascii(artifact@);
    }
    let values = write_values(artifact);
    let ghost names = field_names();
    let ghost written = values_of(artifact@);
    let mut text: Vec<u8> = Vec::new();
    let mut k: usize = 0;
    while k < FIELD_COUNT
        invariant
            k <= FIELD_COUNT,
            names == field_names(),
            names.len() == FIELD_COUNT,
            written == values_of(artifact@),
            values@.len() == FIELD_COUNT,
            forall|i: int| 0 <= i < FIELD_COUNT ==> (#[trigger] values@[i])@ == written[i],
            text@ == lines_before(names, written, k as int),
        decreases FIELD_COUNT - k,
    {
        let name = field_name(k);
        append_bytes(&mut text, name.as_bytes());
        text.push(SEPARATOR);
        append_bytes(&mut text, values[k].as_slice());
        text.push(LINE_BREAK);
        k += 1;
        assert(text@ =~= lines_before(names, written, k as int));
    }
    proof {
        lemma_lines_join(names, written, FIELD_COUNT as int);
        assert(lines_from(names, written, FIELD_COUNT as int) =~= Seq::<u8>::empty());
        assert(text@ =~= lines_before(names, written, FIELD_COUNT as int) + lines_from(
            names,
            written,
            FIELD_COUNT as int,
        ));
    }
    text
}

/// As many values are taken as there are lines.
proof fn lemma_take_values_count(text: Seq<u8>, count: nat)
    requires
        take_values(text, count) is Some,
    ensures
        take_values(text, count)->Some_0.len() == count,
    decreases count,
{
    if count > 0 {
        let rest = take_value(text)->Some_0.1;
        lemma_take_values_count(rest, (count - 1) as nat);
    }
}

/// Takes `text` apart into the values of `count` lines.
fn read_values<'a>(text: &'a [u8], count: usize) -> (values: Option<Vec<&'a [u8]>>)
    ensures
        values is Some <==> take_values(text@, count as nat) is Some,
        values matches Some(v) ==> contents(v@) == take_values(text@, count as nat)->Some_0,
        values matches Some(v) ==> v@.len() == count,
    decreases count,
{
    proof {
        if take_values(text@, count as nat) is Some {
            lemma_take_values_count(text@, count as nat);
        }
    }
    if count == 0 {
        if text.len() == 0 {
            let none: Vec<&'a [u8]> = Vec::new();
            assert(contents(none@) =~= Seq::<Seq<u8>>::empty());
            Some(none)
        } else {
            None
        }
    } else {
        match split_first(text, LINE_BREAK) {
            Some((first, rest)) => match split_first(first, SEPARATOR) {
                Some((_, value)) => match read_values(rest, count - 1) {
                    Some(more) => {
                        let mut values = more;
                        let ghost before = contents(values@);
                        values.insert(0, value);
                        assert(contents(values@) =~= seq![value@] + before);
                        Some(values)
                    },
                    None => None,
                },
                None => None,
            },
            None => None,
        }
    }
}

/// Reads a switch.
fn read_flag(s: &[u8]) -> (flag: Option<bool>)
    ensures
        flag == parsed_flag(s@),
{
    match parse_number(s) {
        Some(n) => {
            if n == 0 {
                Some(false)
            } else if n == 1 {
                Some(true)
            } else {
                None
            }
        },
        None => None,
    }
}

/// Reads a size or a count.
fn read_size(s: &[u8]) -> (size: Option<usize>)
    ensures
        size == parsed_size(s@),
{
    match parse_number(s) {
        Some(n) => {
            if n <= usize::MAX as u64 {
                Some(n as usize)
            } else {
                None
            }
        },
        None => None,
    }
}

/// Reads bytes from their hexadecimal digits.
fn read_hex(s: &[u8]) -> (bytes: Option<Vec<u8>>)
    ensures
        bytes is Some <==> parsed_hex(s@) is Some,
        bytes matches Some(b) ==> b@ == parsed_hex(s@)->Some_0,
{
    match string_from_utf8(slice_to_vec(s)) {
        Some(digits) => hex_decode(digits.as_str()),
        None => None,
    }
}

/// Reads a string.
fn read_string(s: &[u8]) -> (text: Option<String>)
    ensures
        text is Some <==> parsed_string(s@) is Some,
        text matches Some(t) ==> t@ == parsed_string(s@)->Some_0,
{
    match read_hex(s) {
        Some(bytes) => string_from_utf8(bytes),
        None => None,
    }
}

/// Reads the seed.
fn read_seed(values: &Vec<&[u8]>) -> (seed: Option<Seed>)
    requires
        values@.len() == FIELD_COUNT,
    ensures
        seed is Some <==> parsed_seed(contents(values@)) is Some,
        seed matches Some(s) ==> s@ == parsed_seed(contents(values@))->Some_0,
{
    let timestamp = match parse_signed(values[1]) {
        Some(timestamp) => timestamp,
        None => {
            return None;
        },
    };
    match read_string(values[2]) {
        Some(text) => Some(Seed { timestamp, seed: text }),
        None => None,
    }
}

/// Reads the layered parameters.
fn read_layered(values: &Vec<&[u8]>) -> (layered: Option<LayeredParams>)
    requires
        values@.len() == FIELD_COUNT,
    ensures
        layered == parsed_layered(contents(values@)),
{
    let expansion_degree = match read_size(values[9]) {
        Some(n) => n,
        None => {
            return None;
        },
    };
    let layer_count = match read_size(values[10]) {
        Some(n) => n,
        None => {
            return None;
        },
    };
    let is_tapered = match read_flag(values[11]) {
        Some(on) => on,
        None => {
            return None;
        },
    };
    let taper_layer_count = match read_size(values[12]) {
        Some(n) => n,
        None => {
            return None;
        },
    };
    match parse_number(values[13]) {
        Some(taper_fraction_bits) => Some(
            LayeredParams {
                expansion_degree,
                layer_count,
                is_tapered,
                taper_layer_count,
                taper_fraction_bits,
            },
        ),
        None => None,
    }
}

/// Reads the configuration.
fn read_config(values: &Vec<&[u8]>) -> (config: Option<ProofConfig>)
    requires
        values@.len() == FIELD_COUNT,
    ensures
        config == parsed_config(contents(values@)),
{
    let kind = match read_flag(values[3]) {
        Some(true) => ProofKind::Layered,
        Some(false) => ProofKind::SingleLayer,
        None => {
            return None;
        },
    };
    let size_bytes = match read_size(values[4]) {
        Some(n) => n,
        None => {
            return None;
        },
    };
    let degree = match read_size(values[5]) {
        Some(n) => n,
        None => {
            return None;
        },
    };
    let vde_iterations = match read_size(values[6]) {
        Some(n) => n,
        None => {
            return None;
        },
    };
    let challenge_count = match read_size(values[7]) {
        Some(n) => n,
        None => {
            return None;
        },
    };
    let layered_params = match read_flag(values[8]) {
        Some(true) => match read_layered(values) {
            Some(layered) => Some(layered),
            None => {
                return None;
            },
        },
        Some(false) => None,
        None => {
            return None;
        },
    };
    Some(ProofConfig { kind, size_bytes, degree, vde_iterations, challenge_count, layered_params })
}

/// Reads the proof.
fn read_payload(values: &Vec<&[u8]>) -> (payload: Option<ProofPayload>)
    requires
        values@.len() == FIELD_COUNT,
    ensures
        payload is Some <==> parsed_payload(contents(values@)) is Some,
        payload matches Some(p) ==> p@ == parsed_payload(contents(values@))->Some_0,
{
    let layered = match read_flag(values[14]) {
        Some(on) => on,
        None => {
            return None;
        },
    };
    match read_hex(values[15]) {
        Some(bytes) => {
            if layered {
                Some(ProofPayload::Layered(bytes))
            } else {
                Some(ProofPayload::SingleLayer(bytes))
            }
        },
        None => None,
    }
}

/// Reads the optional commitment.
fn read_commitment(values: &Vec<&[u8]>) -> (commitment: Option<Option<Vec<u8>>>)
    requires
        values@.len() == FIELD_COUNT,
    ensures
        commitment is Some <==> parsed_commitment(contents(values@)) is Some,
        commitment matches Some(c) ==> crate::artifact::commitment_view(c) == parsed_commitment(
            contents(values@),
        )->Some_0,
{
    let present = match read_flag(values[16]) {
        Some(on) => on,
        None => {
            return None;
        },
    };
    match read_hex(values[17]) {
        Some(bytes) => {
            if present {
                Some(Some(bytes))
            } else {
                Some(None)
            }
        },
        None => None,
    }
}

/// Reads the artifact that the values write.
fn read_artifact(values: &Vec<&[u8]>) -> (artifact: Option<Artifact>)
    requires
        values@.len() == FIELD_COUNT,
    ensures
        artifact is Some <==> artifact_from(contents(values@)) is Some,
        artifact matches Some(a) ==> a@ == artifact_from(contents(values@))->Some_0,
{
    let prover_name = match read_string(values[0]) {
        Some(text) => text,
        None => {
            return None;
        },
    };
    let seed = match read_seed(values) {
        Some(seed) => seed,
        None => {
            return None;
        },
    };
    let config = match read_config(values) {
        Some(config) => config,
        None => {
            return None;
        },
    };
    let payload = match read_payload(values) {
        Some(payload) => payload,
        None => {
            return None;
        },
    };
    let commitment_star = match read_commitment(values) {
        Some(commitment) => commitment,
        None => {
            return None;
        },
    };
    match read_hex(values[18]) {
        Some(public_tau) => Some(
            Artifact { prover_name, seed, config, payload, commitment_star, public_tau },
        ),
        None => None,
    }
}

/// Reads an artifact from its text. Text that no artifact is written as is a
/// serialization error.
pub fn decode(text: &[u8]) -> (read: Result<Artifact, Error>)
    ensures
        read is Ok ==> encoding(read->Ok_0@) == text@,
        forall|artifact: ArtifactView| #[trigger]
            encoding(artifact) == text@ ==> read is Ok && read->Ok_0@ == artifact,
        read is Err ==> read->Err_0 == Error::Serialization,
{
    proof {
        assert forall|artifact: ArtifactView| #[trigger] encoding(artifact) == text@ implies parsed(
            text@,
        ) == Some(artifact) by {
            lemma_parsed_encoding(artifact);
        }
    }
    let values = match read_values(text, FIELD_COUNT) {
        Some(values) => values,
        None => {
            return Err(Error::Serialization);
        },
    };
    let candidate = match read_artifact(&values) {
        Some(candidate) => candidate,
        None => {
            return Err(Error::Serialization);
        },
    };
    let again = encode(&candidate);
    if same_bytes(again.as_slice(), text) {
        Ok(candidate)
    } else {
        Err(Error::Serialization)
    }
}

} // verus!
