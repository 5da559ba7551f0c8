//! The session metadata document: a JSON object naming the session,
//! the game, the machine, the session's wall-clock bounds and its
//! duration, with the probed hardware description attached when one is
//! available.

use vstd::prelude::*;
use vstd::string::StrSliceExecFns;
use vstd::string::StringExecFns;
use crate::hardware::{CpuSpecs, GpuSpecs, HardwareSpecs, SystemSpecs};
use crate::numfmt::{
    analog_chars, dec_chars, digit_char, push_digit, push_fixed6, push_u64_dec,
};

verus! {

/// The lower-case hexadecimal digit for `d` in `0..16`.
pub open spec fn hex_char(d: int) -> char {
    if d < 10 {
        digit_char(d)
    } else {
        (87 + d) as char
    }
}

/// The JSON escape of one character: quotes and backslashes get a
/// backslash, control characters a `\u00..` escape, everything else
/// passes through.
pub open spec fn esc_char(c: char) -> Seq<char> {
    if c == '"' {
        seq!['\\', '"']
    } else if c == '\\' {
        seq!['\\', '\\']
    } else if (c as int) < 32 {
        seq!['\\', 'u', '0', '0', hex_char(c as int / 16), hex_char(c as int % 16)]
    } else {
        seq![c]
    }
}

/// A string's characters, each JSON-escaped.
pub open spec fn json_escaped(s: Seq<char>) -> Seq<char>
    decreases s.len(),
{
    if s.len() == 0 {
        Seq::<char>::empty()
    } else {
        esc_char(s[0]) + json_escaped(s.drop_first())
    }
}

/// A JSON string literal: the escaped characters between quotes.
pub open spec fn json_str(s: Seq<char>) -> Seq<char> {
    seq!['"'] + json_escaped(s) + seq!['"']
}

/// Escaping a string one character longer appends that character's
/// escape.
proof fn lemma_json_escaped_push(s: Seq<char>, c: char)
    ensures
        json_escaped(s.push(c)) =~= json_escaped(s) + esc_char(c),
    decreases s.len(),
{
    if s.len() == 0 {
        assert(s.push(c)[0] == c);
        assert(s.push(c).drop_first() =~= Seq::<char>::empty());
        assert(json_escaped(s.push(c)) =~= esc_char(c) + json_escaped(Seq::<char>::empty()));
    } else {
        assert(s.push(c)[0] == s[0]);
        assert(s.push(c).drop_first() =~= s.drop_first().push(c));
        lemma_json_escaped_push(s.drop_first(), c);
    }
}

/// Appends the lower-case hexadecimal digit for `d`.
fn push_hex(out: &mut String, d: u32)
    requires
        d < 16,
    ensures
        final(out)@ == old(out)@ + seq![hex_char(d as int)],
{
    if d < 10 {
        push_digit(out, d as u64);
    } else {
        proof {
            reveal_strlit("a");
            reveal_strlit("b");
            reveal_strlit("c");
            reveal_strlit("d");
            reveal_strlit("e");
            reveal_strlit("f");
        }
        match d {
            10 => out.append("a"),
            11 => out.append("b"),
            12 => out.append("c"),
            13 => out.append("d"),
            14 => out.append("e"),
            _ => out.append("f"),
        }
        proof {
            assert(final(out)@ =~= old(out)@ + seq![hex_char(d as int)]);
        }
    }
}

/// Appends `s` as a JSON string literal.
pub fn push_json_str(out: &mut String, s: &str)
    ensures
        final(out)@ == old(out)@ + json_str(s@),
{
    out.append("\"");
    proof {
        reveal_strlit("\"");
        assert(out@ =~= old(out)@ + seq!['"'] + json_escaped(s@.take(0)));
    }
    let n = s.unicode_len();
    let mut i: usize = 0;
    while i < n
        invariant
            0 <= i <= n == s@.len(),
            out@ =~= old(out)@ + seq!['"'] + json_escaped(s@.take(i as int)),
        decreases n - i,
    {
        let c = s.get_char(i);
        let u = c as u32;
        if c == '"' {
            out.append("\\\"");
            proof {
                reveal_strlit("\\\"");
                assert(esc_char(c) =~= "\\\""@);
            }
        } else if c == '\\' {
            out.append("\\\\");
            proof {
                reveal_strlit("\\\\");
                assert(esc_char(c) =~= "\\\\"@);
            }
        } else if u < 32 {
            out.append("\\u00");
            push_hex(out, u / 16);
            push_hex(out, u % 16);
            proof {
                reveal_strlit("\\u00");
                assert(esc_char(c) =~= "\\u00"@ + seq![hex_char(u as int / 16)] + seq![
                    hex_char(u as int % 16),
                ]);
            }
        } else {
            let piece = s.substring_char(i, i + 1);
            out.append(piece);
            proof {
                assert(piece@ =~= seq![c]);
                assert(esc_char(c) =~= seq![c]);
            }
        }
        proof {
            assert(s@.take(i + 1) =~= s@.take(i as int).push(c));
            lemma_json_escaped_push(s@.take(i as int), c);
        }
        i = i + 1;
        proof {
            assert(out@ =~= old(out)@ + seq!['"'] + json_escaped(s@.take(i as int)));
        }
    }
    out.append("\"");
    proof {
        reveal_strlit("\"");
        assert(s@.take(n as int) =~= s@);
        assert(out@ =~= old(out)@ + json_str(s@));
    }
}

/// The JSON object of one graphics adapter.
pub open spec fn gpu_json(g: GpuSpecs) -> Seq<char> {
    "{\"name\":"@ + json_str(g.name@) + ",\"vendor\":"@ + json_str(g.vendor@) + "}"@
}

/// The tail of a JSON adapter array: a comma and an object per
/// adapter.
pub open spec fn gpus_json_rest(gs: Seq<GpuSpecs>) -> Seq<char>
    decreases gs.len(),
{
    if gs.len() == 0 {
        Seq::<char>::empty()
    } else {
        ","@ + gpu_json(gs[0]) + gpus_json_rest(gs.drop_first())
    }
}

/// The JSON array of the graphics adapters.
pub open spec fn gpus_json(gs: Seq<GpuSpecs>) -> Seq<char> {
    if gs.len() == 0 {
        "[]"@
    } else {
        "["@ + gpu_json(gs[0]) + gpus_json_rest(gs.drop_first()) + "]"@
    }
}

/// One more adapter extends the array tail by one object.
proof fn lemma_gpus_json_rest_push(gs: Seq<GpuSpecs>, g: GpuSpecs)
    ensures
        gpus_json_rest(gs.push(g)) =~= gpus_json_rest(gs) + ","@ + gpu_json(g),
    decreases gs.len(),
{
    if gs.len() == 0 {
        assert(gs.push(g)[0] == g);
        assert(gs.push(g).drop_first() =~= Seq::<GpuSpecs>::empty());
        assert(gpus_json_rest(gs.push(g)) =~= ","@ + gpu_json(g) + gpus_json_rest(
            Seq::<GpuSpecs>::empty(),
        ));
    } else {
        assert(gs.push(g)[0] == gs[0]);
        assert(gs.push(g).drop_first() =~= gs.drop_first().push(g));
        lemma_gpus_json_rest_push(gs.drop_first(), g);
    }
}

/// The JSON object of the processor.
pub open spec fn cpu_json(c: CpuSpecs) -> Seq<char> {
    "{\"name\":"@ + json_str(c.name@) + ",\"cores\":"@ + dec_chars(c.cores as nat)
        + ",\"frequency_mhz\":"@ + dec_chars(c.frequency_mhz as nat) + ",\"vendor\":"@ + json_str(
        c.vendor@,
    ) + ",\"brand\":"@ + json_str(c.brand@) + "}"@
}

/// The JSON object of the operating system and machine.  Memory is
/// reported in gibibytes with six fractional digits.
pub open spec fn system_json(s: SystemSpecs) -> Seq<char> {
    "{\"os_name\":"@ + json_str(s.os_name@) + ",\"os_version\":"@ + json_str(s.os_version@)
        + ",\"kernel_version\":"@ + json_str(s.kernel_version@) + ",\"hostname\":"@ + json_str(
        s.hostname@,
    ) + ",\"total_memory_gb\":"@ + analog_chars(
        s.total_memory_bytes as int * 1000000 / 1073741824,
    ) + "}"@
}

/// The JSON object of the whole hardware description.
pub open spec fn hardware_json(h: HardwareSpecs) -> Seq<char> {
    "{\"cpu\":"@ + cpu_json(h.cpu) + ",\"gpus\":"@ + gpus_json(h.gpus@) + ",\"system\":"@
        + system_json(h.system) + "}"@
}

/// The metadata document of one session.
pub open spec fn spec_metadata_json(
    session_id: Seq<char>,
    game_exe: Seq<char>,
    hardware_id: Seq<char>,
    start_timestamp: nat,
    end_timestamp: nat,
    duration_micros: nat,
    specs: Option<HardwareSpecs>,
) -> Seq<char> {
    "{\"session_id\":"@ + json_str(session_id) + ",\"game_exe\":"@ + json_str(game_exe)
        + ",\"hardware_id\":"@ + json_str(hardware_id) + ",\"start_timestamp\":"@ + dec_chars(
        start_timestamp,
    ) + ",\"end_timestamp\":"@ + dec_chars(end_timestamp) + ",\"duration_seconds\":"@
        + analog_chars(duration_micros as int) + ",\"hardware_specs\":"@ + (match specs {
        Option::Some(h) => hardware_json(h),
        Option::None => "null"@,
    }) + "}"@
}

/// Appends the JSON object of one graphics adapter.
fn push_gpu_json(out: &mut String, g: &GpuSpecs)
    ensures
        final(out)@ == old(out)@ + gpu_json(*g),
{
    out.append("{\"name\":");
    push_json_str(out, g.name.as_str());
    out.append(",\"vendor\":");
    push_json_str(out, g.vendor.as_str());
    out.append("}");
    proof {
        assert(final(out)@ =~= old(out)@ + gpu_json(*g));
    }
}

/// Appends the JSON array of the graphics adapters.
fn push_gpus_json(out: &mut String, gs: &Vec<GpuSpecs>)
    ensures
        final(out)@ == old(out)@ + gpus_json(gs@),
{
    if gs.len() == 0 {
        out.append("[]");
        proof {
            assert(final(out)@ =~= old(out)@ + gpus_json(gs@));
        }
        return ;
    }
    out.append("[");
    push_gpu_json(out, &gs[0]);
    let mut i: usize = 1;
    while i < gs.len()
        invariant
            1 <= i <= gs@.len(),
            out@ =~= old(out)@ + "["@ + gpu_json(gs@[0]) + gpus_json_rest(
                gs@.subrange(1, i as int),
            ),
        decreases gs@.len() - i,
    {
        out.append(",");
        push_gpu_json(out, &gs[i]);
        proof {
            assert(gs@.subrange(1, i + 1) =~= gs@.subrange(1, i as int).push(gs@[i as int]));
            lemma_gpus_json_rest_push(gs@.subrange(1, i as int), gs@[i as int]);
        }
        i = i + 1;
        proof {
            assert(out@ =~= old(out)@ + "["@ + gpu_json(gs@[0]) + gpus_json_rest(
                gs@.subrange(1, i as int),
            ));
        }
    }
    out.append("]");
    proof {
        assert(gs@.subrange(1, gs@.len() as int) =~= gs@.drop_first());
        assert(final(out)@ =~= old(out)@ + gpus_json(gs@));
    }
}

/// Appends the JSON object of the processor.
fn push_cpu_json(out: &mut String, c: &CpuSpecs)
    ensures
        final(out)@ == old(out)@ + cpu_json(*c),
{
    out.append("{\"name\":");
    push_json_str(out, c.name.as_str());
    out.append(",\"cores\":");
    push_u64_dec(out, c.cores as u64);
    out.append(",\"frequency_mhz\":");
    push_u64_dec(out, c.frequency_mhz);
    out.append(",\"vendor\":");
    push_json_str(out, c.vendor.as_str());
    out.append(",\"brand\":");
    push_json_str(out, c.brand.as_str());
    out.append("}");
    proof {
        assert(final(out)@ =~= old(out)@ + cpu_json(*c));
    }
}

/// Appends the JSON object of the operating system and machine.
fn push_system_json(out: &mut String, s: &SystemSpecs)
    ensures
        final(out)@ == old(out)@ + system_json(*s),
{
    out.append("{\"os_name\":");
    push_json_str(out, s.os_name.as_str());
    out.append(",\"os_version\":");
    push_json_str(out, s.os_version.as_str());
    out.append(",\"kernel_version\":");
    push_json_str(out, s.kernel_version.as_str());
    out.append(",\"hostname\":");
    push_json_str(out, s.hostname.as_str());
    out.append(",\"total_memory_gb\":");
    let prod: u128 = (s.total_memory_bytes as u128) * 1000000;
    let gb128: u128 = prod / 1073741824;
    proof {
        vstd::arithmetic::div_mod::lemma_div_is_ordered(
            prod as int,
            0xffffffffffffffffu64 as int * 1000000,
            1073741824,
        );
    }
    let gb_micros: u64 = gb128 as u64;
    assert(gb_micros == s.total_memory_bytes as int * 1000000 / 1073741824);
    push_fixed6(out, gb_micros);
    out.append("}");
    proof {
        assert(final(out)@ =~= old(out)@ + system_json(*s));
    }
}

/// Renders the metadata document of one session.
pub fn write_metadata_json(
    session_id: &str,
    game_exe: &str,
    hardware_id: &str,
    start_timestamp: u64,
    end_timestamp: u64,
    duration_micros: u64,
    specs: Option<&HardwareSpecs>,
) -> (doc: String)
    ensures
        doc@ == spec_metadata_json(
            session_id@,
            game_exe@,
            hardware_id@,
            start_timestamp as nat,
            end_timestamp as nat,
            duration_micros as nat,
            match specs {
                Option::Some(h) => Option::Some(*h),
                Option::None => Option::<HardwareSpecs>::None,
            },
        ),
{
    let mut out = String::new();
    out.append("{\"session_id\":");
    push_json_str(&mut out, session_id);
    out.append(",\"game_exe\":");
    push_json_str(&mut out, game_exe);
    out.append(",\"hardware_id\":");
    push_json_str(&mut out, hardware_id);
    out.append(",\"start_timestamp\":");
    push_u64_dec(&mut out, start_timestamp);
    out.append(",\"end_timestamp\":");
    push_u64_dec(&mut out, end_timestamp);
    out.append(",\"duration_seconds\":");
    push_fixed6(&mut out, duration_micros);
    out.append(",\"hardware_specs\":");
    match specs {
        Option::Some(h) => {
            out.append("{\"cpu\":");
            push_cpu_json(&mut out, &h.cpu);
            out.append(",\"gpus\":");
            push_gpus_json(&mut out, &h.gpus);
            out.append(",\"system\":");
            push_system_json(&mut out, &h.system);
            out.append("}");
        },
        Option::None => {
            out.append("null");
        },
    }
    out.append("}");
    proof {
        assert(out@ =~= spec_metadata_json(
            session_id@,
            game_exe@,
            hardware_id@,
            start_timestamp as nat,
            end_timestamp as nat,
            duration_micros as nat,
            match specs {
                Option::Some(h) => Option::Some(*h),
                Option::None => Option::<HardwareSpecs>::None,
            },
        ));
    }
    out
}

} // verus!
