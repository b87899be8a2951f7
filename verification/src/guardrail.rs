//! The pre-flight hardware guardrail: refuse to load a model whose file would
//! take more than 80% of the machine's physical memory, unless forced.
use vstd::prelude::*;
use vstd::string::*;

use crate::error::PocketError;
use crate::text::string_of;

verus! {

/// The model file is larger than 80% of the physical memory.
pub open spec fn exceeds_ram_budget(model_bytes: nat, total_ram_bytes: nat) -> bool {
    model_bytes * 5 > total_ram_bytes * 4
}

/// The character of a decimal digit.
pub open spec fn digit_char(d: nat) -> char {
    if d == 0 {
        '0'
    } else if d == 1 {
        '1'
    } else if d == 2 {
        '2'
    } else if d == 3 {
        '3'
    } else if d == 4 {
        '4'
    } else if d == 5 {
        '5'
    } else if d == 6 {
        '6'
    } else if d == 7 {
        '7'
    } else if d == 8 {
        '8'
    } else {
        '9'
    }
}

/// The decimal notation of a number, without leading zeros.
pub open spec fn decimal(n: nat) -> Seq<char>
    decreases n,
{
    if n < 10 {
        seq![digit_char(n)]
    } else {
        decimal(n / 10).push(digit_char(n % 10))
    }
}

fn digit_char_exec(d: u64) -> (r: char)
    requires
        d < 10,
    ensures
        r == digit_char(d as nat),
{
    if d == 0 {
        '0'
    } else if d == 1 {
        '1'
    } else if d == 2 {
        '2'
    } else if d == 3 {
        '3'
    } else if d == 4 {
        '4'
    } else if d == 5 {
        '5'
    } else if d == 6 {
        '6'
    } else if d == 7 {
        '7'
    } else if d == 8 {
        '8'
    } else {
        '9'
    }
}

/// The decimal notation of a number.
pub fn decimal_string(n: u64) -> (r: String)
    ensures
        r@ == decimal(n as nat),
{
    let digits = decimal_chars(n);
    string_of(digits.as_slice())
}

fn decimal_chars(n: u64) -> (r: Vec<char>)
    ensures
        r@ == decimal(n as nat),
    decreases n,
{
    if n < 10 {
        let mut r: Vec<char> = Vec::new();
        r.push(digit_char_exec(n));
        assert(r@ =~= seq![digit_char(n as nat)]);
        r
    } else {
        let mut r = decimal_chars(n / 10);
        r.push(digit_char_exec(n % 10));
        r
    }
}

/// The message given when the guardrail refuses a model.
pub open spec fn ram_refusal_message(model_bytes: nat, total_ram_bytes: nat) -> Seq<char> {
    "Model size ("@ + decimal(model_bytes) + " bytes) exceeds 80% of physical RAM ("@ + decimal(
        total_ram_bytes,
    ) + " bytes). System would freeze. Use --force-ram to bypass."@
}

/// Checks that a model file of `model_bytes` fits within 80% of
/// `total_ram_bytes` of physical memory; `force_ram` bypasses the check.
pub fn preflight_check(model_bytes: u64, total_ram_bytes: u64, force_ram: bool) -> (r: Result<
    (),
    PocketError,
>)
    ensures
        r is Ok <==> (force_ram || !exceeds_ram_budget(model_bytes as nat, total_ram_bytes as nat)),
        !force_ram && model_bytes * 5 > total_ram_bytes * 4 ==> (r matches Err(
            PocketError::MemoryInsufficient(_),
        )),
        force_ram || model_bytes * 5 <= total_ram_bytes * 4 ==> r is Ok,
        r matches Err(e) ==> (e matches PocketError::MemoryInsufficient(m) && m@
            == ram_refusal_message(model_bytes as nat, total_ram_bytes as nat)),
{
    if force_ram {
        return Ok(());
    }
    let model = model_bytes as u128;
    let total = total_ram_bytes as u128;
    if model * 5 > total * 4 {
        let mut m = String::from_str("Model size (");
        let model_text = decimal_string(model_bytes);
        m.append(model_text.as_str());
        m.append(" bytes) exceeds 80% of physical RAM (");
        let total_text = decimal_string(total_ram_bytes);
        m.append(total_text.as_str());
        m.append(" bytes). System would freeze. Use --force-ram to bypass.");
        Err(PocketError::MemoryInsufficient(m))
    } else {
        Ok(())
    }
}


/// The guardrail is monotone: a model that fits also fits when it is smaller
/// or when the machine has more memory.
pub proof fn lemma_guardrail_monotone(
    model_bytes: nat,
    total_ram_bytes: nat,
    smaller_model: nat,
    larger_ram: nat,
)
    requires
        !exceeds_ram_budget(model_bytes, total_ram_bytes),
        smaller_model <= model_bytes,
        total_ram_bytes <= larger_ram,
    ensures
        !exceeds_ram_budget(smaller_model, larger_ram),
{
}

/// A model is over budget exactly when its size is more than 80% of the
/// physical memory, whatever the sizes involved.
pub proof fn lemma_budget_is_eighty_percent(model_bytes: nat, total_ram_bytes: nat)
    ensures
        exceeds_ram_budget(model_bytes, total_ram_bytes) <==> model_bytes * 5 > total_ram_bytes * 4,
        exceeds_ram_budget(model_bytes, total_ram_bytes) <==> model_bytes * 100
            > total_ram_bytes * 80,
{
}

/// The number that a string of decimal digits denotes.
pub open spec fn digits_value(s: Seq<char>) -> nat
    decreases s.len(),
{
    if s.len() == 0 {
        0
    } else {
        digits_value(s.drop_last()) * 10 + ((s.last() as u32) - 48) as nat
    }
}

proof fn lemma_digit_char_value(d: nat)
    requires
        d < 10,
    ensures
        (digit_char(d) as u32) - 48 == d,
        '0' <= digit_char(d) <= '9',
{
}

/// The decimal notation of a number is made of the digits 0 to 9, reads back
/// as the number, and starts with 0 only for zero itself.
pub proof fn lemma_decimal_reads_back(n: nat)
    ensures
        digits_value(decimal(n)) == n,
        decimal(n).len() >= 1,
        forall|i: int| 0 <= i < decimal(n).len() ==> '0' <= #[trigger] decimal(n)[i] <= '9',
        decimal(n)[0] == '0' ==> n == 0,
    decreases n,
{
    lemma_digit_char_value(n % 10);
    if n < 10 {
        assert(n % 10 == n);
        let d = decimal(n);
        assert(d.drop_last() =~= Seq::<char>::empty());
        assert(digits_value(d.drop_last()) == 0);
        assert(d.last() == digit_char(n));
        assert(digits_value(d) == digits_value(d.drop_last()) * 10 + ((d.last() as u32) - 48) as nat);
    } else {
        lemma_decimal_reads_back(n / 10);
        let d = decimal(n);
        assert(d.drop_last() =~= decimal(n / 10));
        assert(d[0] == decimal(n / 10)[0]);
        assert(d.last() == digit_char(n % 10));
        assert(digits_value(d) == digits_value(decimal(n / 10)) * 10 + (n % 10));
        assert((n / 10) * 10 + n % 10 == n);
        assert forall|i: int| 0 <= i < d.len() implies '0' <= #[trigger] d[i] <= '9' by {
            if i < d.len() - 1 {
                assert(d[i] == decimal(n / 10)[i]);
            }
        }
    }
}

} // verus!
