use vstd::prelude::*;
use vstd::string::StringExecFns;
use crate::configuration::Configuration;
use crate::failure::{Components, Conf, Failure};
use crate::layer::{cell_col, cell_exists, cell_row, matrix_view};
use crate::lif_neuron::{LifNeuron, LifState};

verus! {

/// Whether every character of `s` is a decimal digit.
pub open spec fn is_digit_line(s: Seq<char>) -> bool {
    forall|i: int| 0 <= i < s.len() ==> '0' <= #[trigger] s[i] <= '9'
}

/// The value of a decimal digit character.
pub open spec fn digit_value(c: char) -> u8 {
    (c as u32 - '0' as u32) as u8
}

/// The character of a decimal digit `d < 10`.
pub open spec fn digit_char(d: nat) -> char {
    ('0' as u32 + d) as char
}

/// The decimal representation of `n`, without leading zeros.
pub open spec fn decimal(n: nat) -> Seq<char>
    decreases n,
{
    if n < 10 {
        seq![digit_char(n)]
    } else {
        decimal(n / 10).push(digit_char(n % 10))
    }
}

/// The name under which a fault configuration reports a targeted component.
pub open spec fn component_name(c: Components) -> Seq<char> {
    match c {
        Components::VTh => "VTh"@,
        Components::VRest => "VRest"@,
        Components::VReset => "VReset"@,
        Components::Tau => "Tau"@,
        Components::VMem => "VMem"@,
        Components::Ts => "Ts"@,
        Components::Dt => "Dt"@,
        Components::Weights => "Weights"@,
        Components::IntraWeights => "IntraWeights"@,
        Components::PrevSpikes => "PrevSpikes"@,
        Components::NoTarget => "NoFault"@,
    }
}

/// The name under which a fault configuration reports its failure and bit position.
pub open spec fn failure_name(f: Failure) -> Seq<char> {
    match f {
        Failure::StuckAt0(s) => "StuckAt0_"@ + decimal(s.spec_position() as nat),
        Failure::StuckAt1(s) => "StuckAt1_"@ + decimal(s.spec_position() as nat),
        Failure::TransientBitFlip(t) => "Transient_"@ + decimal(t.spec_position() as nat),
        Failure::NoFault => "None"@,
    }
}

/// The first targeted component, or `NoTarget` when there is none.
pub open spec fn first_component(cs: Seq<Components>) -> Components {
    if cs.len() > 0 {
        cs[0]
    } else {
        Components::NoTarget
    }
}

/// The file name of a configuration's report: `<component>_<failure>_<neuron>.txt`.
pub open spec fn file_name(conf: Conf) -> Seq<char> {
    component_name(first_component(conf.spec_components())) + "_"@ + failure_name(conf.spec_failure()) + "_"@
        + decimal(conf.spec_index_neuron() as nat) + ".txt"@
}

/// The digits of one line of an input spike file, as numbers.
pub fn convert_line_into_u8(line: String) -> (r: Vec<u8>)
    requires
        is_digit_line(line@),
    ensures
        r@ == line@.map_values(|c: char| digit_value(c)),
{
    let s = line.as_str();
    proof {
        assert(vstd::string::is_ascii(s));
        vstd::string::is_ascii_spec_bytes(s);
    }
    let bytes = s.as_bytes();
    let mut r: Vec<u8> = Vec::new();
    let mut i: usize = 0;
    while i < bytes.len()
        invariant
            0 <= i <= bytes@.len(),
            bytes@ == Seq::new(line@.len(), |k: int| line@[k] as u8),
            is_digit_line(line@),
            r@ == line@.take(i as int).map_values(|c: char| digit_value(c)),
        decreases bytes@.len() - i,
    {
        let b = bytes[i];
        proof {
            let c = line@[i as int];
            assert('0' <= c <= '9');
            assert(b == c as u8);
        }
        r.push(b - 48);
        assert(r@ =~= line@.take(i + 1).map_values(|c: char| digit_value(c)));
        i = i + 1;
    }
    assert(line@.take(i as int) =~= line@);
    r
}

/// The one-character string of digit `d`.
fn digit_str(d: usize) -> (r: &'static str)
    requires
        d < 10,
    ensures
        r@ == seq![digit_char(d as nat)],
{
    proof {
        reveal_strlit("0");
        reveal_strlit("1");
        reveal_strlit("2");
        reveal_strlit("3");
        reveal_strlit("4");
        reveal_strlit("5");
        reveal_strlit("6");
        reveal_strlit("7");
        reveal_strlit("8");
        reveal_strlit("9");
    }
    let r = match d {
        0 => "0",
        1 => "1",
        2 => "2",
        3 => "3",
        4 => "4",
        5 => "5",
        6 => "6",
        7 => "7",
        8 => "8",
        _ => "9",
    };
    assert(r@ =~= seq![digit_char(d as nat)]);
    r
}

/// Appends the decimal representation of `n`.
pub fn push_decimal(s: &mut String, n: usize)
    ensures
        final(s)@ == old(s)@ + decimal(n as nat),
    decreases n,
{
    if n >= 10 {
        push_decimal(s, n / 10);
    }
    s.append(digit_str(n % 10));
    assert(final(s)@ =~= old(s)@ + decimal(n as nat)) by {
        if n >= 10 {
            assert(decimal(n as nat) == decimal((n / 10) as nat).push(digit_char((n % 10) as nat)));
        }
    }
}

/// The file name under which the outcome of a run with this configuration is reported.
pub fn get_file_name(conf: &Conf) -> (r: String)
    ensures
        r@ == file_name(*conf),
{
    let components = conf.get_vec_components();
    let comp = if components.len() > 0 { components[0] } else { Components::NoTarget };
    let comp_string = match comp {
        Components::VTh => "VTh",
        Components::VRest => "VRest",
        Components::VReset => "VReset",
        Components::Tau => "Tau",
        Components::VMem => "VMem",
        Components::Ts => "Ts",
        Components::Dt => "Dt",
        Components::Weights => "Weights",
        Components::IntraWeights => "IntraWeights",
        Components::PrevSpikes => "PrevSpikes",
        Components::NoTarget => "NoFault",
    };
    let mut r = String::from_str(comp_string);
    r.append("_");
    match conf.get_failure() {
        Failure::StuckAt0(s) => {
            r.append("StuckAt0_");
            push_decimal(&mut r, s.get_position());
        },
        Failure::StuckAt1(s) => {
            r.append("StuckAt1_");
            push_decimal(&mut r, s.get_position());
        },
        Failure::TransientBitFlip(t) => {
            r.append("Transient_");
            push_decimal(&mut r, t.get_position());
        },
        Failure::NoFault => {
            r.append("None");
        },
    }
    r.append("_");
    push_decimal(&mut r, conf.get_index_neuron());
    r.append(".txt");
    assert(r@ =~= file_name(*conf));
    r
}

/// The bit pattern of a component before any fault: a neuron attribute of neuron
/// `index`, or the matrix cell addressed by `position`; 0 for the other components.
pub open spec fn component_bits(
    c: Components,
    neurons: Seq<LifState>,
    index: int,
    intra_weights: Seq<Seq<u64>>,
    extra_weights: Seq<Seq<u64>>,
    position: usize,
) -> u64 {
    match c {
        Components::VTh => neurons[index].v_th,
        Components::VRest => neurons[index].v_rest,
        Components::VReset => neurons[index].v_reset,
        Components::Tau => neurons[index].tau,
        Components::Dt => neurons[index].dt,
        Components::IntraWeights => intra_weights[cell_row(intra_weights.len(), position)][cell_col(
            intra_weights.len(),
            position,
        )],
        Components::Weights => extra_weights[cell_row(extra_weights.len(), position)][cell_col(
            extra_weights.len(),
            position,
        )],
        _ => 0,
    }
}

/// The bit pattern that a fault on component `e` would start from (see `component_bits`).
pub fn get_val(
    e: Components,
    neurons: &Vec<LifNeuron>,
    index: usize,
    intra_weights: &Vec<Vec<u64>>,
    extra_weights: &Vec<Vec<u64>>,
    position: usize,
) -> (r: u64)
    requires
        (e is VTh || e is VRest || e is VReset || e is Tau || e is Dt) ==> index < neurons@.len(),
        e is IntraWeights ==> cell_exists(matrix_view(intra_weights@), position),
        e is Weights ==> cell_exists(matrix_view(extra_weights@), position),
    ensures
        r == component_bits(
            e,
            neurons@.map_values(|n: LifNeuron| n@),
            index as int,
            matrix_view(intra_weights@),
            matrix_view(extra_weights@),
            position,
        ),
{
    match e {
        Components::VTh => neurons[index].get_v_th(),
        Components::VRest => neurons[index].get_v_rest(),
        Components::VReset => neurons[index].get_v_reset(),
        Components::Tau => neurons[index].get_tau(),
        Components::Dt => neurons[index].get_dt(),
        Components::IntraWeights => {
            let rows = intra_weights.len();
            intra_weights[position / 64 / rows][position / 64 % rows]
        },
        Components::Weights => {
            let rows = extra_weights.len();
            extra_weights[position / 64 / rows][position / 64 % rows]
        },
        _ => 0,
    }
}

/// A square inhibitory matrix for `n` neurons: `value` between every two distinct
/// neurons, and 0 (the pattern of +0.0) on the diagonal.
pub fn build_intra_weights(n: usize, value: u64) -> (r: Vec<Vec<u64>>)
    ensures
        r@.len() == n,
        forall|i: int| 0 <= i < n ==> (#[trigger] r@[i])@.len() == n,
        forall|i: int, j: int| 0 <= i < n && 0 <= j < n ==> #[trigger] r@[i]@[j] == if i == j { 0 } else { value },
{
    let mut r: Vec<Vec<u64>> = Vec::new();
    let mut i: usize = 0;
    while i < n
        invariant
            0 <= i <= n,
            r@.len() == i,
            forall|a: int| 0 <= a < i ==> (#[trigger] r@[a])@.len() == n,
            forall|a: int, b: int| 0 <= a < i && 0 <= b < n ==> #[trigger] r@[a]@[b] == if a == b { 0 } else { value },
        decreases n - i,
    {
        let mut row: Vec<u64> = Vec::new();
        let mut j: usize = 0;
        while j < n
            invariant
                0 <= j <= n,
                i < n,
                row@.len() == j,
                forall|b: int| 0 <= b < j ==> #[trigger] row@[b] == if i == b { 0 } else { value },
            decreases n - j,
        {
            if i == j {
                row.push(0);
            } else {
                row.push(value);
            }
            j = j + 1;
        }
        r.push(row);
        i = i + 1;
    }
    r
}

} // verus!
