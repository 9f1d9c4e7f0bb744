//! Colour framing of console output: the escape sequences that set the
//! foreground and background colours around a text and reset them after it.
use vstd::prelude::*;

verus! {

/// The decimal digits of `n`, most significant first, in ASCII.
pub open spec fn decimal(n: nat) -> Seq<u8>
    decreases n,
{
    if n < 10 {
        seq![(48 + n) as u8]
    } else {
        decimal(n / 10).push((48 + n % 10) as u8)
    }
}

/// `ESC [ code m`: the terminal sequence that selects colour `code`.
pub open spec fn sgr(code: nat) -> Seq<u8> {
    seq![0x1bu8, 0x5bu8] + decimal(code) + seq![0x6du8]
}

/// The sequence that resets the colours.
pub open spec fn sgr_reset() -> Seq<u8> {
    seq![0x1bu8, 0x5bu8, 0x30u8, 0x6du8]
}

/// Appends the decimal digits of `n` to `out`.
fn push_decimal(out: &mut Vec<u8>, n: u8)
    ensures
        final(out)@ == old(out)@ + decimal(n as nat),
{
    proof {
        reveal_with_fuel(decimal, 3);
    }
    if n >= 100 {
        out.push(48 + n / 100);
        out.push(48 + (n / 10) % 10);
        out.push(48 + n % 10);
        proof {
            assert(decimal(n as nat) =~= seq![(48 + n / 100) as u8, (48 + (n / 10) % 10) as u8, (48 + n % 10) as u8]);
        }
    } else if n >= 10 {
        out.push(48 + n / 10);
        out.push(48 + n % 10);
        proof {
            assert(decimal(n as nat) =~= seq![(48 + n / 10) as u8, (48 + n % 10) as u8]);
        }
    } else {
        out.push(48 + n);
    }
}

/// The bytes that show `text` in foreground colour `foreground_color` on
/// background colour `background_color`, then reset the colours.
pub fn print_colorized(text: &Vec<u8>, foreground_color: u8, background_color: u8) -> (r: Vec<u8>)
    ensures
        r@ == sgr(foreground_color as nat) + sgr(background_color as nat) + text@ + sgr_reset(),
{
    let mut out: Vec<u8> = Vec::new();
    out.push(0x1b);
    out.push(0x5b);
    push_decimal(&mut out, foreground_color);
    out.push(0x6d);
    out.push(0x1b);
    out.push(0x5b);
    push_decimal(&mut out, background_color);
    out.push(0x6d);
    let ghost head = out@;
    let mut i: usize = 0;
    while i < text.len()
        invariant
            i <= text.len(),
            out@ == head + text@.take(i as int),
        decreases text.len() - i,
    {
        out.push(text[i]);
        i = i + 1;
        proof {
            assert(out@ =~= head + text@.take(i as int));
        }
    }
    out.push(0x1b);
    out.push(0x5b);
    out.push(0x30);
    out.push(0x6d);
    proof {
        assert(text@.take(i as int) =~= text@);
        assert(out@ =~= sgr(foreground_color as nat) + sgr(background_color as nat) + text@ + sgr_reset());
    }
    out
}

} // verus!
