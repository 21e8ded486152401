//! A contract factory: the owner registers code templates by name, and
//! anyone deploys an instance of one at an address derived from the
//! template, the deployment's number and the time.
use vstd::prelude::*;
use crate::keymap::KeyMap;
use crate::text::{decimal, digit_char, hex_padded, push_decimal, push_hex_padded};
use crate::usdc::{is_digit, lemma_decimal_digits};

verus! {

/// A deployed instance.
#[derive(Clone, Debug)]
pub struct DeployedContract {
    pub address: String,
    pub template: String,
    pub deployer: String,
    pub timestamp: u64,
    pub init_args: Vec<u8>,
}

/// The factory.
#[derive(Clone, Debug)]
pub struct FactoryState {
    pub owner: String,
    /// The code of each template, by name.
    pub templates: KeyMap<String, Vec<u8>>,
    /// The instances, in the order deployed.
    pub deployed: Vec<DeployedContract>,
    pub deploy_count: u64,
}

/// The address of the `count`-th deployment, of `template`, at `time`:
/// `dina1_factory_`, the template, `_`, the count in decimal, `_`, and the
/// time in sixteen hexadecimal digits.
pub open spec fn factory_address(template: Seq<char>, count: nat, time: nat) -> Seq<char> {
    "dina1_factory_"@ + template + "_"@ + decimal(count) + "_"@ + hex_padded(time, 16)
}

impl FactoryState {
    /// The invariant: the count is the number of instances deployed, and
    /// each instance has the address of its template, number and time.
    pub open spec fn wf(&self) -> bool {
        &&& self.templates.wf()
        &&& self.deploy_count == self.deployed@.len()
        &&& forall|i: int|
            0 <= i < self.deployed@.len() ==> (#[trigger] self.deployed@[i]).address@ == factory_address(
                self.deployed@[i].template@,
                (i + 1) as nat,
                self.deployed@[i].timestamp as nat,
            )
    }

    /// The code of each template.
    pub open spec fn codes(&self) -> Map<Seq<char>, Seq<u8>> {
        self.templates@.map_values(|v: Vec<u8>| v@)
    }

    pub fn new(owner: String) -> (s: Self)
        ensures
            s.wf(),
            s.owner == owner,
            s.codes() == Map::<Seq<char>, Seq<u8>>::empty(),
            s.deployed@ == Seq::<DeployedContract>::empty(),
            s.deploy_count == 0,
    {
        let s = FactoryState { owner, templates: KeyMap::new(), deployed: Vec::new(), deploy_count: 0 };
        assert(s.codes() =~= Map::<Seq<char>, Seq<u8>>::empty());
        s
    }

    /// Registers, or replaces, the template `name`; the owner only, with a
    /// name and code that are not empty.
    pub fn register_template(&mut self, caller: &str, name: String, wasm_code: Vec<u8>)
        requires
            old(self).wf(),
            caller@ == old(self).owner@,
            name@.len() > 0,
            wasm_code@.len() > 0,
        ensures
            final(self).wf(),
            final(self).codes() == old(self).codes().insert(name@, wasm_code@),
            final(self).owner == old(self).owner,
            final(self).deployed == old(self).deployed,
            final(self).deploy_count == old(self).deploy_count,
    {
        let ghost code = wasm_code@;
        self.templates.insert(name, wasm_code);
        assert(self.codes() =~= old(self).codes().insert(name@, code));
    }

    /// Deploys an instance of a registered template and returns its address.
    pub fn deploy_from_template(&mut self, caller: &str, template_name: &str, init_args: Vec<u8>, current_time: u64) -> (r:
        String)
        requires
            old(self).wf(),
            old(self).codes().contains_key(template_name@),
            old(self).deploy_count < u64::MAX,
        ensures
            final(self).wf(),
            final(self).deploy_count == old(self).deploy_count + 1,
            r@ == factory_address(template_name@, final(self).deploy_count as nat, current_time as nat),
            final(self).deployed@.drop_last() == old(self).deployed@,
            final(self).deployed@.last().address == r,
            final(self).deployed@.last().template@ == template_name@,
            final(self).deployed@.last().deployer@ == caller@,
            final(self).deployed@.last().timestamp == current_time,
            final(self).deployed@.last().init_args == init_args,
            final(self).templates == old(self).templates,
            final(self).owner == old(self).owner,
    {
        self.deploy_count = self.deploy_count + 1;
        let mut address = String::from_str("dina1_factory_");
        address.append(template_name);
        address.append("_");
        push_decimal(&mut address, self.deploy_count);
        address.append("_");
        push_hex_padded(&mut address, current_time, 16);
        assert(address@ =~= factory_address(
            template_name@,
            self.deploy_count as nat,
            current_time as nat,
        ));
        self.deployed.push(
            DeployedContract {
                address: address.clone(),
                template: template_name.to_owned(),
                deployer: caller.to_owned(),
                timestamp: current_time,
                init_args,
            },
        );
        assert(self.deployed@.drop_last() =~= old(self).deployed@);
        assert forall|i: int| 0 <= i < self.deployed@.len() implies (#[trigger] self.deployed@[i]).address@
            == factory_address(self.deployed@[i].template@, (i + 1) as nat, self.deployed@[i].timestamp as nat) by {
            if i < old(self).deployed@.len() {
                assert(self.deployed@[i] == old(self).deployed@[i]);
            }
        }
        address
    }

    /// The `index`-th instance deployed, counting from 0.
    pub fn get_deployed(&self, index: usize) -> (r: Option<&DeployedContract>)
        ensures
            match r {
                Some(d) => index < self.deployed@.len() && *d == self.deployed@[index as int],
                None => index >= self.deployed@.len(),
            },
    {
        if index < self.deployed.len() {
            Some(&self.deployed[index])
        } else {
            None
        }
    }

    /// The number of templates registered.
    pub fn get_template_count(&self) -> (r: usize)
        requires
            self.wf(),
        ensures
            r == self.codes().len(),
    {
        proof {
            assert(self.codes().dom() =~= self.templates@.dom());
        }
        self.templates.len()
    }

    pub fn get_deploy_count(&self) -> (r: u64)
        ensures
            r == self.deploy_count,
    {
        self.deploy_count
    }

    /// Whether a template is registered under `name`.
    pub fn has_template(&self, name: &str) -> (r: bool)
        requires
            self.wf(),
        ensures
            r == self.codes().contains_key(name@),
    {
        self.templates.contains_key(&name.to_owned())
    }
}

/// No hexadecimal digit is an underscore, and `width` of them are written.
proof fn lemma_hex_padded_plain(n: nat, width: nat)
    ensures
        hex_padded(n, width).len() == width,
        forall|i: int| 0 <= i < width ==> (#[trigger] hex_padded(n, width)[i]) != '_',
    decreases width,
{
    if width > 0 {
        lemma_hex_padded_plain(n / 16, (width - 1) as nat);
        let d = n % 16;
        let b: u8 = if d < 10 {
            (48 + d) as u8
        } else {
            (87 + d) as u8
        };
        assert((b as char) as u32 == b as u32);
        assert(digit_char(d) == b as char);
        let t = hex_padded(n, width);
        assert forall|i: int| 0 <= i < width implies (#[trigger] t[i]) != '_' by {
            if i < width - 1 {
                assert(t[i] == hex_padded(n / 16, (width - 1) as nat)[i]);
            }
        }
    }
}

/// Deployments with different numbers get different addresses, whatever
/// their templates and times: the number is what stands between the last
/// two underscores.
pub proof fn law_distinct_counts_distinct_addresses(
    template1: Seq<char>,
    count1: nat,
    time1: nat,
    template2: Seq<char>,
    count2: nat,
    time2: nat,
)
    requires
        count1 != count2,
    ensures
        factory_address(template1, count1, time1) != factory_address(template2, count2, time2),
{
    reveal_strlit("_");
    lemma_hex_padded_plain(time1, 16);
    lemma_hex_padded_plain(time2, 16);
    lemma_decimal_digits(count1);
    lemma_decimal_digits(count2);
    let d1 = decimal(count1);
    let d2 = decimal(count2);
    let x1 = "dina1_factory_"@ + template1 + "_"@ + d1;
    let x2 = "dina1_factory_"@ + template2 + "_"@ + d2;
    let a1 = factory_address(template1, count1, time1);
    let a2 = factory_address(template2, count2, time2);
    assert(x1 =~= a1.take(a1.len() - 17));
    assert(x2 =~= a2.take(a2.len() - 17));
    if a1 == a2 {
        assert(x1 == x2);
        assert(x1[x1.len() - d1.len() - 1] == '_');
        assert(x2[x2.len() - d2.len() - 1] == '_');
        if d1.len() < d2.len() {
            let k = d2.len() - d1.len() - 1;
            assert(x2[x2.len() - d1.len() - 1] == d2[k]);
            assert(is_digit(d2[k]));
        } else if d2.len() < d1.len() {
            let k = d1.len() - d2.len() - 1;
            assert(x1[x1.len() - d2.len() - 1] == d1[k]);
            assert(is_digit(d1[k]));
        } else {
            assert(d1 =~= x1.skip(x1.len() - d1.len()));
            assert(d2 =~= x2.skip(x2.len() - d2.len()));
        }
    }
}

/// Every instance a factory deployed has an address of its own.
pub proof fn law_deployed_addresses_distinct(s: FactoryState, i: int, j: int)
    requires
        s.wf(),
        0 <= i < s.deployed@.len(),
        0 <= j < s.deployed@.len(),
        i != j,
    ensures
        s.deployed@[i].address@ != s.deployed@[j].address@,
{
    law_distinct_counts_distinct_addresses(
        s.deployed@[i].template@,
        (i + 1) as nat,
        s.deployed@[i].timestamp as nat,
        s.deployed@[j].template@,
        (j + 1) as nat,
        s.deployed@[j].timestamp as nat,
    );
}

} // verus!
