//! DRC-10 NFT royalties: per-token creator registration and royalty rates.
use vstd::prelude::*;
use crate::keymap::KeyMap;
use crate::math::mul_div;

verus! {

/// Who receives a token's royalty, and its rate in basis points.
#[derive(Clone, Copy, Debug)]
pub struct RoyaltyInfo {
    pub recipient: [u8; 32],
    pub basis_points: u16,
}

/// The royalty registry.
#[derive(Clone, Debug)]
pub struct RoyaltyRegistry {
    pub royalties: KeyMap<u64, RoyaltyInfo>,
    pub creators: KeyMap<u64, [u8; 32]>,
    pub admin: [u8; 32],
}

/// The royalty owed on a sale: `sale_price * basis_points / 10000`.
pub open spec fn royalty_amount(sale_price: u64, basis_points: u16) -> u64 {
    ((sale_price as int * basis_points as int) / 10000) as u64
}

impl RoyaltyRegistry {
    pub open spec fn wf(&self) -> bool {
        self.royalties.wf() && self.creators.wf()
    }

    /// An empty registry administered by `admin`.
    pub fn new(admin: [u8; 32]) -> (s: Self)
        ensures
            s.wf(),
            s.royalties@ == Map::<u64, RoyaltyInfo>::empty(),
            s.creators@ == Map::<u64, [u8; 32]>::empty(),
            s.admin == admin,
    {
        RoyaltyRegistry { royalties: KeyMap::new(), creators: KeyMap::new(), admin }
    }

    /// Records the caller as the creator of `token_id`; a token's creator is set once.
    pub fn register_creator(&mut self, caller: [u8; 32], token_id: u64)
        requires
            old(self).wf(),
            !old(self).creators@.contains_key(token_id),
        ensures
            final(self).wf(),
            final(self).creators@ == old(self).creators@.insert(token_id, caller),
            final(self).royalties == old(self).royalties,
            final(self).admin == old(self).admin,
    {
        self.creators.insert(token_id, caller);
    }

    /// The creator of `token_id` sets its royalty, at most 10000 basis points.
    pub fn set_royalty(
        &mut self,
        caller: [u8; 32],
        token_id: u64,
        recipient: [u8; 32],
        basis_points: u16,
    )
        requires
            old(self).wf(),
            basis_points <= 10000,
            old(self).creators@.contains_key(token_id),
            caller@ == old(self).creators@[token_id]@,
        ensures
            final(self).wf(),
            final(self).royalties@ == old(self).royalties@.insert(
                token_id,
                RoyaltyInfo { recipient, basis_points },
            ),
            final(self).creators == old(self).creators,
            final(self).admin == old(self).admin,
    {
        self.royalties.insert(token_id, RoyaltyInfo { recipient, basis_points });
    }

    /// The recipient of `token_id`'s royalty and the amount owed on a sale at `sale_price`.
    pub fn royalty_info(&self, token_id: u64, sale_price: u64) -> (r: ([u8; 32], u64))
        requires
            self.wf(),
            self.royalties@.contains_key(token_id),
        ensures
            r.0 == self.royalties@[token_id].recipient,
            r.1 == royalty_amount(sale_price, self.royalties@[token_id].basis_points),
    {
        let info = self.royalties.get(&token_id).unwrap();
        let royalty = mul_div(sale_price, info.basis_points as u64, 10000);
        (info.recipient, royalty)
    }

    /// The royalty set for `token_id`, if any.
    pub fn get_royalty(&self, token_id: u64) -> (r: Option<&RoyaltyInfo>)
        requires
            self.wf(),
        ensures
            match r {
                Some(info) => self.royalties@.contains_key(token_id) && *info
                    == self.royalties@[token_id],
                None => !self.royalties@.contains_key(token_id),
            },
    {
        self.royalties.get(&token_id)
    }
}

/// A royalty of at most 10000 basis points never exceeds the sale price.
pub proof fn law_royalty_within_price(sale_price: u64, basis_points: u16)
    requires
        basis_points <= 10000,
    ensures
        royalty_amount(sale_price, basis_points) <= sale_price,
{
    crate::math::lemma_mul_div_le(sale_price as int, basis_points as int, 10000);
}

/// The royalty on a sale is the sale price times the rate in basis points,
/// divided by 10000 and rounded down.
pub proof fn law_royalty_is_rounded_down_share(sale_price: u64, basis_points: u16)
    requires
        basis_points <= 10000,
    ensures
        royalty_amount(sale_price, basis_points) as int * 10000 <= sale_price as int * basis_points as int,
        (sale_price as int * basis_points as int) < (royalty_amount(sale_price, basis_points) as int + 1) * 10000,
{
    let n = sale_price as int * basis_points as int;
    let q = n / 10000;
    assert(q * 10000 <= n && n < (q + 1) * 10000 && 0 <= q <= sale_price) by (nonlinear_arith)
        requires
            q == n / 10000,
            n == sale_price as int * basis_points as int,
            0 <= basis_points <= 10000,
            sale_price >= 0,
    ;
    assert(royalty_amount(sale_price, basis_points) as int == q);
}

} // verus!
