//! The call data of a swap at a router of the Uniswap V2 family:
//! `swapExactTokensForTokens(uint256, uint256, address[], address, uint256)`.
//!
//! Only the plain layout is read: the selector, five head words with the path
//! at offset 160, the length of the path, and one word per token. Anything
//! else is not a swap as far as this module is concerned.

use crate::amount::Amount;
use crate::primitives::Address;
use vstd::prelude::*;

verus! {

/// The first four bytes of the call data of `swapExactTokensForTokens`.
pub open spec fn swap_selector() -> Seq<u8> {
    seq![0x38u8, 0xedu8, 0x17u8, 0x39u8]
}

/// Bytes before the path's length: selector and five head words.
pub const HEAD_LEN: usize = 164;

/// Bytes before the first token of the path.
pub const PATH_START: usize = 196;

/// The number that `n` bytes from `at` on stand for, most significant first.
pub open spec fn be_value(data: Seq<u8>, at: int, n: nat) -> nat
    decreases n,
{
    if n == 0 {
        0
    } else {
        be_value(data, at, (n - 1) as nat) * 256 + data[at + n - 1] as nat
    }
}

/// The number that the 32-byte word at `at` stands for.
pub open spec fn word_value(data: Seq<u8>, at: int) -> nat {
    be_value(data, at + 24, 8) + be_value(data, at + 16, 8) * crate::amount::weight1() + be_value(
        data,
        at + 8,
        8,
    ) * crate::amount::weight2() + be_value(data, at, 8) * crate::amount::weight3()
}

/// Whether the word at `at` holds an address: twelve zero bytes, then the
/// address.
pub open spec fn is_address_word(data: Seq<u8>, at: int) -> bool {
    forall|i: int| at <= i < at + 12 ==> data[i] == 0
}

/// Where token number `i` of the path stands in the call data.
pub open spec fn token_at(i: int) -> int {
    196 + 32 * i
}

/// The address in the word at `at`.
pub open spec fn address_at(data: Seq<u8>, at: int) -> Seq<u8> {
    data.subrange(at + 12, at + 32)
}

/// A swap call in mathematical form.
pub struct SwapCallView {
    pub amount_in: nat,
    pub amount_out_min: nat,
    pub path: Seq<Seq<u8>>,
    pub recipient: Seq<u8>,
    pub deadline: nat,
}

/// Whether `data` has the plain layout of the call with a path of `n`
/// tokens: the selector, the path at offset 160, its length, and an address
/// in the recipient's word and in each token's.
pub open spec fn has_swap_layout(data: Seq<u8>, n: nat) -> bool {
    &&& data.len() == 196 + 32 * n
    &&& data.subrange(0, 4) == swap_selector()
    &&& word_value(data, 68) == 160
    &&& is_address_word(data, 100)
    &&& word_value(data, 164) == n
    &&& forall|i: int| 0 <= i < n ==> is_address_word(data, #[trigger] token_at(i))
}

/// Whether `data` is the call data of a swap in the plain layout, with a
/// path of `n` tokens. A swap trades through two tokens at least.
pub open spec fn is_swap_call(data: Seq<u8>, n: nat) -> bool {
    n >= 2 && has_swap_layout(data, n)
}

/// What the call data of a swap with a path of `n` tokens says.
pub open spec fn swap_call_of(data: Seq<u8>, n: nat) -> SwapCallView {
    SwapCallView {
        amount_in: word_value(data, 4),
        amount_out_min: word_value(data, 36),
        path: Seq::new(n, |i: int| address_at(data, token_at(i))),
        recipient: address_at(data, 100),
        deadline: word_value(data, 132),
    }
}

/// The swap that `data` calls for, or `None` where `data` is not the call
/// data of a swap in the plain layout.
pub open spec fn decoded_swap(data: Seq<u8>) -> Option<SwapCallView> {
    if data.len() >= 196 && (data.len() - 196) % 32 == 0 && is_swap_call(
        data,
        ((data.len() - 196) / 32) as nat,
    ) {
        Some(swap_call_of(data, ((data.len() - 196) / 32) as nat))
    } else {
        None
    }
}

/// A decoded swap.
#[derive(Clone, Debug)]
pub struct SwapCall {
    /// What the swap pays in.
    pub amount_in: Amount,
    /// The least that it accepts to take out.
    pub amount_out_min: Amount,
    /// The tokens it trades through: the first is paid in, the last is taken
    /// out.
    pub path: Vec<Address>,
    /// Who gets what is taken out.
    pub recipient: Address,
    /// The time after which the swap is void.
    pub deadline: Amount,
}

/// The addresses of a path.
pub open spec fn addresses_view(path: Seq<Address>) -> Seq<Seq<u8>> {
    Seq::new(path.len(), |i: int| path[i]@)
}

impl View for SwapCall {
    type V = SwapCallView;

    open spec fn view(&self) -> SwapCallView {
        SwapCallView {
            amount_in: self.amount_in@,
            amount_out_min: self.amount_out_min@,
            path: addresses_view(self.path@),
            recipient: self.recipient@,
            deadline: self.deadline@,
        }
    }
}

/// Eight bytes from `at` on as a number, most significant first.
fn read_be64(data: &[u8], at: usize) -> (r: u64)
    requires
        at + 8 <= data.len(),
    ensures
        r == be_value(data@, at as int, 8),
{
    let mut acc: u64 = 0;
    let mut i: usize = 0;
    while i < 8
        invariant
            i <= 8,
            at + 8 <= data.len(),
            acc == be_value(data@, at as int, i as nat),
            acc < pow256(i as nat),
        decreases 8 - i,
    {
        proof {
            lemma_pow256_values();
            reveal_with_fuel(pow256, 2);
            assert(pow256((i + 1) as nat) == 256 * pow256(i as nat));
        }
        acc = acc * 256 + data[at + i] as u64;
        i += 1;
    }
    acc
}

/// `256^n`.
pub open spec fn pow256(n: nat) -> nat
    decreases n,
{
    if n == 0 {
        1
    } else {
        256 * pow256((n - 1) as nat)
    }
}

/// Eight bytes hold a number below 2^64.
pub proof fn lemma_pow256_values()
    ensures
        pow256(8) == 0x1_0000_0000_0000_0000,
        forall|i: nat| i <= 8 ==> #[trigger] pow256(i) <= 0x1_0000_0000_0000_0000,
{
    reveal_with_fuel(pow256, 10);
    assert(pow256(0) == 1);
    assert(pow256(1) == 0x100);
    assert(pow256(2) == 0x1_0000);
    assert(pow256(3) == 0x100_0000);
    assert(pow256(4) == 0x1_0000_0000);
    assert(pow256(5) == 0x100_0000_0000);
    assert(pow256(6) == 0x1_0000_0000_0000);
    assert(pow256(7) == 0x100_0000_0000_0000);
    assert(pow256(8) == 0x1_0000_0000_0000_0000);
    assert forall|i: nat| i <= 8 implies #[trigger] pow256(i) <= 0x1_0000_0000_0000_0000 by {
        assert(i == 0 || i == 1 || i == 2 || i == 3 || i == 4 || i == 5 || i == 6 || i == 7 || i
            == 8);
    }
}

/// The 32-byte word at `at` as an amount.
fn read_word(data: &[u8], at: usize) -> (r: Amount)
    requires
        at + 32 <= data.len(),
    ensures
        r@ == word_value(data@, at as int),
{
    let w3 = read_be64(data, at);
    let w2 = read_be64(data, at + 8);
    let w1 = read_be64(data, at + 16);
    let w0 = read_be64(data, at + 24);
    Amount { limbs: [w0, w1, w2, w3] }
}

/// The address in the word at `at`, if the word holds one.
fn read_address(data: &[u8], at: usize) -> (r: Option<Address>)
    requires
        at + 32 <= data.len(),
    ensures
        match r {
            Some(a) => is_address_word(data@, at as int) && a@ == address_at(data@, at as int),
            None => !is_address_word(data@, at as int),
        },
{
    let mut i: usize = 0;
    while i < 12
        invariant
            i <= 12,
            at + 32 <= data.len(),
            forall|j: int| at <= j < at + i ==> data@[j] == 0,
        decreases 12 - i,
    {
        if data[at + i] != 0 {
            return None;
        }
        i += 1;
    }
    let mut bytes: [u8; 20] = [0;20];
    let mut k: usize = 0;
    while k < 20
        invariant
            k <= 20,
            at + 32 <= data.len(),
            forall|j: int| 0 <= j < k ==> bytes@[j] == data@[at + 12 + j],
        decreases 20 - k,
    {
        bytes[k] = data[at + 12 + k];
        k += 1;
    }
    assert(bytes@ =~= address_at(data@, at as int));
    Some(Address { bytes })
}

/// Reads the call data of a swap. Returns `None` for anything that is not a
/// swap in the plain layout.
pub fn decode_swap(data: &[u8]) -> (r: Option<SwapCall>)
    ensures
        match r {
            Some(call) => decoded_swap(data@) == Some(call@),
            None => decoded_swap(data@) is None,
        },
        r matches Some(call) ==> call.path.len() >= 2 && data.len() == 196 + 32 * call.path.len(),
{
    let len = data.len();
    if len < PATH_START || (len - PATH_START) % 32 != 0 {
        return None;
    }
    let n: usize = (len - PATH_START) / 32;
    if n < 2 {
        return None;
    }
    if data[0] != 0x38 || data[1] != 0xed || data[2] != 0x17 || data[3] != 0x39 {
        assert(data@.subrange(0, 4) != swap_selector()) by {
            let s = data@.subrange(0, 4);
            assert(s[0] == data@[0] && s[1] == data@[1] && s[2] == data@[2] && s[3] == data@[3]);
        }
        return None;
    }
    assert(data@.subrange(0, 4) =~= swap_selector());
    let offset = read_word(data, 68);
    if !offset.eq(&Amount::from_u64(160)) {
        return None;
    }
    let count = read_word(data, HEAD_LEN);
    if !count.eq(&Amount::from_u64(n as u64)) {
        return None;
    }
    let recipient = match read_address(data, 100) {
        Some(a) => a,
        None => {
            return None;
        },
    };
    let mut path: Vec<Address> = Vec::new();
    let mut i: usize = 0;
    while i < n
        invariant
            i <= n,
            n >= 2,
            data.len() == 196 + 32 * n,
            path.len() == i,
            forall|j: int| 0 <= j < i ==> is_address_word(data@, #[trigger] token_at(j)),
            forall|j: int| 0 <= j < i ==> path@[j]@ == address_at(data@, token_at(j)),
        decreases n - i,
    {
        match read_address(data, PATH_START + 32 * i) {
            Some(a) => {
                path.push(a);
            },
            None => {
                assert(!is_address_word(data@, token_at(i as int)));
                return None;
            },
        }
        i += 1;
    }
    let call = SwapCall {
        amount_in: read_word(data, 4),
        amount_out_min: read_word(data, 36),
        path,
        recipient,
        deadline: read_word(data, 132),
    };
    proof {
        assert(is_swap_call(data@, n as nat));
        assert(call@.path =~= swap_call_of(data@, n as nat).path);
    }
    Some(call)
}

/// `longer` begins with `shorter`.
pub open spec fn extends(longer: Seq<u8>, shorter: Seq<u8>) -> bool {
    &&& shorter.len() <= longer.len()
    &&& forall|i: int| 0 <= i < shorter.len() ==> longer[i] == shorter[i]
}

/// Bytes that are appended do not change the numbers read before them.
pub proof fn lemma_be_value_kept(shorter: Seq<u8>, longer: Seq<u8>, at: int, n: nat)
    requires
        extends(longer, shorter),
        0 <= at,
        at + n <= shorter.len(),
    ensures
        be_value(longer, at, n) == be_value(shorter, at, n),
    decreases n,
{
    if n > 0 {
        lemma_be_value_kept(shorter, longer, at, (n - 1) as nat);
    }
}

/// Bytes that are appended do not change the words read before them.
pub proof fn lemma_word_kept(shorter: Seq<u8>, longer: Seq<u8>, at: int)
    requires
        extends(longer, shorter),
        0 <= at,
        at + 32 <= shorter.len(),
    ensures
        word_value(longer, at) == word_value(shorter, at),
        is_address_word(longer, at) == is_address_word(shorter, at),
        address_at(longer, at) == address_at(shorter, at),
{
    lemma_be_value_kept(shorter, longer, at, 8);
    lemma_be_value_kept(shorter, longer, at + 8, 8);
    lemma_be_value_kept(shorter, longer, at + 16, 8);
    lemma_be_value_kept(shorter, longer, at + 24, 8);
    assert(address_at(longer, at) =~= address_at(shorter, at));
    if is_address_word(shorter, at) {
        assert forall|i: int| at <= i < at + 12 implies longer[i] == 0 by {
            assert(shorter[i] == 0);
        }
    }
    if is_address_word(longer, at) {
        assert forall|i: int| at <= i < at + 12 implies shorter[i] == 0 by {
            assert(longer[i] == 0);
        }
    }
}

/// Appends the eight bytes of `v`, most significant first.
fn push_be64(out: &mut Vec<u8>, v: u64)
    ensures
        final(out)@.len() == old(out)@.len() + 8,
        extends(final(out)@, old(out)@),
        be_value(final(out)@, old(out)@.len() as int, 8) == v,
{
    let r7 = v / 256;
    let r6 = r7 / 256;
    let r5 = r6 / 256;
    let r4 = r5 / 256;
    let r3 = r4 / 256;
    let r2 = r3 / 256;
    let r1 = r2 / 256;
    out.push((r1 % 256) as u8);
    out.push((r2 % 256) as u8);
    out.push((r3 % 256) as u8);
    out.push((r4 % 256) as u8);
    out.push((r5 % 256) as u8);
    out.push((r6 % 256) as u8);
    out.push((r7 % 256) as u8);
    out.push((v % 256) as u8);
    proof {
        let s = out@;
        let at = old(out)@.len() as int;
        reveal_with_fuel(be_value, 2);
        assert(r1 < 256);
        assert(be_value(s, at, 0) == 0);
        assert(be_value(s, at, 1) == r1);
        assert(be_value(s, at, 2) == r2);
        assert(be_value(s, at, 3) == r3);
        assert(be_value(s, at, 4) == r4);
        assert(be_value(s, at, 5) == r5);
        assert(be_value(s, at, 6) == r6);
        assert(be_value(s, at, 7) == r7);
        assert(be_value(s, at, 8) == v);
    }
}

/// Appends an amount as a 32-byte word.
fn push_word(out: &mut Vec<u8>, a: &Amount)
    ensures
        final(out)@.len() == old(out)@.len() + 32,
        extends(final(out)@, old(out)@),
        word_value(final(out)@, old(out)@.len() as int) == a@,
{
    let ghost at = out@.len() as int;
    push_be64(out, a.limbs[3]);
    let ghost s1 = out@;
    push_be64(out, a.limbs[2]);
    let ghost s2 = out@;
    push_be64(out, a.limbs[1]);
    let ghost s3 = out@;
    push_be64(out, a.limbs[0]);
    proof {
        lemma_be_value_kept(s1, out@, at, 8);
        lemma_be_value_kept(s2, out@, at + 8, 8);
        lemma_be_value_kept(s3, out@, at + 16, 8);
    }
}

/// Appends an address as a 32-byte word.
fn push_address(out: &mut Vec<u8>, a: &Address)
    ensures
        final(out)@.len() == old(out)@.len() + 32,
        extends(final(out)@, old(out)@),
        is_address_word(final(out)@, old(out)@.len() as int),
        address_at(final(out)@, old(out)@.len() as int) == a@,
{
    let ghost at = out@.len() as int;
    let mut i: usize = 0;
    while i < 12
        invariant
            i <= 12,
            at == old(out)@.len(),
            out@.len() == at + i,
            extends(out@, old(out)@),
            forall|j: int| at <= j < at + i ==> out@[j] == 0,
        decreases 12 - i,
    {
        out.push(0);
        i += 1;
    }
    let mut k: usize = 0;
    while k < 20
        invariant
            k <= 20,
            at == old(out)@.len(),
            out@.len() == at + 12 + k,
            extends(out@, old(out)@),
            forall|j: int| at <= j < at + 12 ==> out@[j] == 0,
            forall|j: int| 0 <= j < k ==> out@[at + 12 + j] == a.bytes@[j],
        decreases 20 - k,
    {
        out.push(a.bytes[k]);
        k += 1;
    }
    assert(address_at(out@, at) =~= a@);
}

/// The first four bytes of the call data of
/// `liquidationCall(address, address, address, uint256, bool)`.
pub open spec fn liquidation_selector() -> Seq<u8> {
    seq![0x00u8, 0xa7u8, 0x18u8, 0xa9u8]
}

/// Whether `data` is the call data of a liquidation of `user`'s `debt`
/// against `collateral`, repaying `amount`, with the collateral paid out as
/// the asset itself.
pub open spec fn is_liquidation_call(
    data: Seq<u8>,
    collateral: Seq<u8>,
    debt: Seq<u8>,
    user: Seq<u8>,
    amount: nat,
) -> bool {
    &&& data.len() == 164
    &&& data.subrange(0, 4) == liquidation_selector()
    &&& is_address_word(data, 4)
    &&& address_at(data, 4) == collateral
    &&& is_address_word(data, 36)
    &&& address_at(data, 36) == debt
    &&& is_address_word(data, 68)
    &&& address_at(data, 68) == user
    &&& word_value(data, 100) == amount
    &&& word_value(data, 132) == 0
}

/// Writes the call data of a liquidation.
pub fn encode_liquidation(collateral: &Address, debt: &Address, user: &Address, amount: &Amount) -> (r:
    Vec<u8>)
    ensures
        is_liquidation_call(r@, collateral@, debt@, user@, amount@),
{
    let mut out: Vec<u8> = Vec::new();
    out.push(0x00);
    out.push(0xa7);
    out.push(0x18);
    out.push(0xa9);
    let ghost s0 = out@;
    push_address(&mut out, collateral);
    let ghost s1 = out@;
    push_address(&mut out, debt);
    let ghost s2 = out@;
    push_address(&mut out, user);
    let ghost s3 = out@;
    push_word(&mut out, amount);
    let ghost s4 = out@;
    push_word(&mut out, &Amount::zero());
    proof {
        let s5 = out@;
        lemma_word_kept(s1, s5, 4);
        lemma_word_kept(s2, s5, 36);
        lemma_word_kept(s3, s5, 68);
        lemma_word_kept(s4, s5, 100);
        assert(s5.subrange(0, 4) =~= liquidation_selector());
    }
    out
}

/// What `encode_swap` has written so far: the selector and the six words
/// before the path.
pub open spec fn head_written(data: Seq<u8>, call: SwapCallView) -> bool {
    &&& data.len() >= 196
    &&& data.subrange(0, 4) == swap_selector()
    &&& word_value(data, 4) == call.amount_in
    &&& word_value(data, 36) == call.amount_out_min
    &&& word_value(data, 68) == 160
    &&& is_address_word(data, 100)
    &&& address_at(data, 100) == call.recipient
    &&& word_value(data, 132) == call.deadline
    &&& word_value(data, 164) == call.path.len()
}

/// Bytes that are appended leave the head as it is.
pub proof fn lemma_head_kept(shorter: Seq<u8>, longer: Seq<u8>, call: SwapCallView)
    requires
        extends(longer, shorter),
        head_written(shorter, call),
    ensures
        head_written(longer, call),
{
    lemma_word_kept(shorter, longer, 4);
    lemma_word_kept(shorter, longer, 36);
    lemma_word_kept(shorter, longer, 68);
    lemma_word_kept(shorter, longer, 100);
    lemma_word_kept(shorter, longer, 132);
    lemma_word_kept(shorter, longer, 164);
    assert(longer.subrange(0, 4) =~= shorter.subrange(0, 4));
}

/// Writes a call in the plain layout. Where the path holds two tokens at
/// least, what is written is the call data of a swap and reads back as the
/// same swap; a shorter path is written all the same, and `decode_swap`
/// refuses it.
pub fn encode_swap(call: &SwapCall) -> (r: Vec<u8>)
    ensures
        has_swap_layout(r@, call.path.len() as nat),
        swap_call_of(r@, call.path.len() as nat) == call@,
        decoded_swap(r@) == if call.path.len() >= 2 {
            Some(call@)
        } else {
            None
        },
{
    let n = call.path.len();
    let mut out: Vec<u8> = Vec::new();
    out.push(0x38);
    out.push(0xed);
    out.push(0x17);
    out.push(0x39);
    assert(out@.subrange(0, 4) =~= swap_selector());
    let ghost s0 = out@;
    push_word(&mut out, &call.amount_in);
    let ghost s1 = out@;
    push_word(&mut out, &call.amount_out_min);
    let ghost s2 = out@;
    push_word(&mut out, &Amount::from_u64(160));
    let ghost s3 = out@;
    push_address(&mut out, &call.recipient);
    let ghost s4 = out@;
    push_word(&mut out, &call.deadline);
    let ghost s5 = out@;
    push_word(&mut out, &Amount::from_u64(n as u64));
    proof {
        let s6 = out@;
        lemma_word_kept(s1, s6, 4);
        lemma_word_kept(s2, s6, 36);
        lemma_word_kept(s3, s6, 68);
        lemma_word_kept(s4, s6, 100);
        lemma_word_kept(s5, s6, 132);
        assert(s6.subrange(0, 4) =~= s0.subrange(0, 4));
        assert(head_written(s6, call@));
    }
    let mut i: usize = 0;
    while i < n
        invariant
            i <= n,
            n == call.path.len(),
            out@.len() == 196 + 32 * i,
            head_written(out@, call@),
            forall|j: int| 0 <= j < i ==> is_address_word(out@, #[trigger] token_at(j)),
            forall|j: int| 0 <= j < i ==> address_at(out@, token_at(j)) == call.path@[j]@,
        decreases n - i,
    {
        let ghost before = out@;
        push_address(&mut out, &call.path[i]);
        proof {
            lemma_head_kept(before, out@, call@);
            assert forall|j: int| 0 <= j < i + 1 implies is_address_word(
                out@,
                #[trigger] token_at(j),
            ) && address_at(out@, token_at(j)) == call.path@[j]@ by {
                if j < i {
                    assert(is_address_word(before, token_at(j)));
                    lemma_word_kept(before, out@, token_at(j));
                }
            }
        }
        i += 1;
    }
    proof {
        assert(has_swap_layout(out@, n as nat));
        assert(swap_call_of(out@, n as nat).path =~= call@.path);
        assert(out@.len() - 196 == 32 * n);
    }
    out
}

} // verus!
