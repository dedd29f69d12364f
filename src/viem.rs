//! The emitter for the viem framework.
use vstd::prelude::*;
use crate::abi::{abi_file_name, abi_module_name, abi_text, pretty_json, render_abi};
use crate::contracts::{ContractMetadata, IntermediateContracts};
use crate::render::{addresses_text, push_decimal, ContractAddresses};
use crate::table::{
    address_table, address_table_of, keys_unique, lemma_address_table_well_formed,
    table_well_formed,
};

verus! {

/// std's PathBuf, carried through as the emitter's two directories.
#[verifier::external_type_specification]
#[verifier::external_body]
pub struct ExPathBuf(std::path::PathBuf);

/// The directory that a generated file goes to.
#[derive(PartialEq, Eq, Structural, Clone, Copy, Debug)]
pub enum OutputDir {
    Addresses,
    Abi,
}

/// A generated file: its directory, its name within it, and its full text.
pub struct OutputFile {
    pub dir: OutputDir,
    pub file_name: String,
    pub contents: String,
}

/// The name of the addresses module.
pub open spec fn addresses_file_name() -> Seq<char> {
    "contract-addresses.ts"@
}

/// `f` is the ABI module of contract `c`.
pub open spec fn is_abi_file(f: OutputFile, c: ContractMetadata) -> bool {
    &&& f.dir == OutputDir::Abi
    &&& f.file_name@ == abi_file_name(c.name@)
    &&& f.contents@ == abi_text(pretty_json(c.abi))
}

/// `fs` are the ABI modules of `cs`, one for each record and in the same order.
pub open spec fn are_abi_files(fs: Seq<OutputFile>, cs: Seq<ContractMetadata>) -> bool {
    &&& fs.len() == cs.len()
    &&& forall|k: int| 0 <= k < cs.len() ==> is_abi_file(#[trigger] fs[k], cs[k])
}

/// The records of all networks, network after network, each in its given order.
pub open spec fn all_contracts(ic: Seq<(u64, Vec<ContractMetadata>)>) -> Seq<ContractMetadata>
    decreases ic.len(),
{
    if ic.len() == 0 {
        Seq::empty()
    } else {
        all_contracts(ic.drop_last()) + ic.last().1@
    }
}

/// `fs` are the files generated from `ic`: the addresses module first, then
/// the ABI module of each record, network after network.
pub open spec fn renders(fs: Seq<OutputFile>, ic: Seq<(u64, Vec<ContractMetadata>)>) -> bool {
    &&& fs.len() >= 1
    &&& fs[0].dir == OutputDir::Addresses
    &&& fs[0].file_name@ == addresses_file_name()
    &&& fs[0].contents@ == addresses_text(address_table(ic))
    &&& are_abi_files(fs.skip(1), all_contracts(ic))
}

/// The emitter: where the two kinds of module go, and the contracts to emit.
pub struct Viem {
    abi_dir: std::path::PathBuf,
    addresses_dir: std::path::PathBuf,
    intermediate_contracts: IntermediateContracts,
}

impl Viem {
    pub fn new(
        addresses_dir: std::path::PathBuf,
        abi_dir: std::path::PathBuf,
        intermediate_contracts: IntermediateContracts,
    ) -> (r: Viem)
        requires
            keys_unique(intermediate_contracts@),
        ensures
            r.addresses_path() == addresses_dir,
            r.abi_path() == abi_dir,
            r.contracts() == intermediate_contracts@,
    {
        Viem { abi_dir, addresses_dir, intermediate_contracts }
    }

    /// The directory of the addresses module.
    pub closed spec fn addresses_path(&self) -> std::path::PathBuf {
        self.addresses_dir
    }

    /// The directory of the ABI modules.
    pub closed spec fn abi_path(&self) -> std::path::PathBuf {
        self.abi_dir
    }

    pub fn addresses_dir(&self) -> (r: &std::path::PathBuf)
        ensures
            *r == self.addresses_path(),
    {
        &self.addresses_dir
    }

    pub fn abi_dir(&self) -> (r: &std::path::PathBuf)
        ensures
            *r == self.abi_path(),
    {
        &self.abi_dir
    }

    pub fn intermediate_contracts(&self) -> (r: &IntermediateContracts)
        ensures
            r@ == self.contracts(),
    {
        &self.intermediate_contracts
    }

    /// The contracts to emit, grouped by network.
    pub closed spec fn contracts(&self) -> Seq<(u64, Vec<ContractMetadata>)> {
        self.intermediate_contracts@
    }

    /// The address table of the contracts: per network, each name with the
    /// address of the last record that bears it.
    pub fn contract_addresses(&self) -> (r: ContractAddresses)
        ensures
            r.deep_view() == address_table(self.contracts()),
    {
        address_table_of(&self.intermediate_contracts)
    }

    /// The text of the addresses module.
    pub fn addresses_module(&self) -> (r: String)
        ensures
            r@ == addresses_text(address_table(self.contracts())),
    {
        proof {
            lemma_address_table_well_formed(self.contracts());
        }
        Viem::json_to_ts(self.contract_addresses())
    }

    /// The addresses module as a file of the addresses directory.
    pub fn addresses_file(&self) -> (r: OutputFile)
        ensures
            r.dir == OutputDir::Addresses,
            r.file_name@ == addresses_file_name(),
            r.contents@ == addresses_text(address_table(self.contracts())),
    {
        OutputFile {
            dir: OutputDir::Addresses,
            file_name: String::from_str("contract-addresses.ts"),
            contents: self.addresses_module(),
        }
    }

    /// The ABI modules of one network's records, one per record and in their order.
    pub fn abi_files(contract_metadata: &Vec<ContractMetadata>) -> (r: Vec<OutputFile>)
        ensures
            are_abi_files(r@, contract_metadata@),
    {
        let mut out: Vec<OutputFile> = Vec::new();
        Viem::push_abi_files(&mut out, contract_metadata);
        assert(out@.skip(0) =~= out@);
        out
    }

    /// Appends the ABI modules of `cs` to `out`.
    fn push_abi_files(out: &mut Vec<OutputFile>, cs: &Vec<ContractMetadata>)
        ensures
            final(out)@.len() == old(out)@.len() + cs@.len(),
            final(out)@.take(old(out)@.len() as int) == old(out)@,
            are_abi_files(final(out)@.skip(old(out)@.len() as int), cs@),
    {
        let ghost start = out@;
        let mut j: usize = 0;
        while j < cs.len()
            invariant
                0 <= j <= cs.len(),
                out@.len() == start.len() + j,
                out@.take(start.len() as int) == start,
                forall|k: int| 0 <= k < j ==> is_abi_file(#[trigger] out@[start.len() + k], cs@[k]),
            decreases cs.len() - j,
        {
            let c = &cs[j];
            let contents = render_abi(&c.abi);
            out.push(OutputFile { dir: OutputDir::Abi, file_name: abi_module_name(c.name.as_str()), contents });
            assert(out@.take(start.len() as int) =~= start);
            j = j + 1;
        }
        assert(out@.skip(start.len() as int) =~= Seq::new(cs@.len(), |k: int| out@[start.len() + k]));
    }

    /// Every generated file: first the addresses module, then the ABI module of
    /// each record, network after network. Where two records share a name, the
    /// later file replaces the earlier one when the files are written in order.
    pub fn render_files(&self) -> (r: Vec<OutputFile>)
        ensures
            renders(r@, self.contracts()),
    {
        let ic = &self.intermediate_contracts;
        let mut out: Vec<OutputFile> = Vec::new();
        out.push(self.addresses_file());
        let ghost first = out@[0];
        let mut i: usize = 0;
        while i < ic.len()
            invariant
                0 <= i <= ic.len(),
                ic@ == self.contracts(),
                out@.len() >= 1,
                out@[0] == first,
                first.dir == OutputDir::Addresses,
                first.file_name@ == addresses_file_name(),
                first.contents@ == addresses_text(address_table(self.contracts())),
                are_abi_files(out@.skip(1), all_contracts(ic@.take(i as int))),
            decreases ic.len() - i,
        {
            let ghost before = out@;
            proof {
                assert(ic@.take(i as int + 1).drop_last() =~= ic@.take(i as int));
            }
            Viem::push_abi_files(&mut out, &ic[i].1);
            proof {
                let prior = all_contracts(ic@.take(i as int));
                let cs = ic@[i as int].1@;
                assert(all_contracts(ic@.take(i as int + 1)) =~= prior + cs);
                assert(out@[0] == before[0]);
                assert forall|k: int| 0 <= k < prior.len() + cs.len() implies is_abi_file(
                    #[trigger] out@.skip(1)[k],
                    (prior + cs)[k],
                ) by {
                    if k < prior.len() {
                        assert(out@[1 + k] == before[1 + k]);
                        assert(before.skip(1)[k] == before[1 + k]);
                    } else {
                        assert(out@.skip(before.len() as int)[k - prior.len()] == out@[1 + k]);
                    }
                }
            }
            i = i + 1;
        }
        assert(ic@.take(i as int) =~= ic@);
        out
    }

    /// Finds two generated files that share a name but differ in content: the
    /// earliest such pair `(i, j)`, `i < j`, in the order of `j` then `i`.
    /// `None` when every name stands for a single content.
    pub fn first_conflict(files: &Vec<OutputFile>) -> (r: Option<(usize, usize)>)
        ensures
            r matches Some((i, j)) ==> i < j < files@.len() && files@[i as int].file_name@
                == files@[j as int].file_name@ && files@[i as int].contents@
                != files@[j as int].contents@,
            r matches Some((i, j)) ==> forall|a: int, b: int|
                0 <= a < b <= j && (b < j || a < i) && files@[a].file_name@
                    == files@[b].file_name@ ==> files@[a].contents@ == files@[b].contents@,
            r is None ==> forall|i: int, j: int|
                0 <= i < j < files@.len() && files@[i].file_name@ == files@[j].file_name@
                    ==> files@[i].contents@ == files@[j].contents@,
    {
        let mut j: usize = 0;
        while j < files.len()
            invariant
                0 <= j <= files@.len(),
                forall|a: int, b: int|
                    0 <= a < b < j && files@[a].file_name@ == files@[b].file_name@
                        ==> files@[a].contents@ == files@[b].contents@,
            decreases files@.len() - j,
        {
            let mut i: usize = 0;
            while i < j
                invariant
                    0 <= i <= j < files@.len(),
                    forall|a: int, b: int|
                        0 <= a < b < j && files@[a].file_name@ == files@[b].file_name@
                            ==> files@[a].contents@ == files@[b].contents@,
                    forall|a: int|
                        0 <= a < i && files@[a].file_name@ == files@[j as int].file_name@
                            ==> files@[a].contents@ == files@[j as int].contents@,
                decreases j - i,
            {
                if files[i].file_name == files[j].file_name && files[i].contents != files[j].contents {
                    return Some((i, j));
                }
                i = i + 1;
            }
            j = j + 1;
        }
        None
    }

    /// Renders the address table as the text of the addresses module: the
    /// networks and their contracts in the table's order.
    pub fn json_to_ts(contract_addresses: ContractAddresses) -> (r: String)
        requires
            table_well_formed(contract_addresses.deep_view()),
        ensures
            r@ == addresses_text(contract_addresses.deep_view()),
    {
        let ghost t = contract_addresses.deep_view();
        let mut out = String::from_str("export const ContractAddress = {\n");
        let mut i: usize = 0;
        while i < contract_addresses.len()
            invariant
                0 <= i <= contract_addresses.len(),
                t == contract_addresses.deep_view(),
                out@ == "export const ContractAddress = {\n"@ + crate::render::networks_text(
                    t.take(i as int),
                ),
            decreases contract_addresses.len() - i,
        {
            let (chain_id, contracts) = (contract_addresses[i].0, &contract_addresses[i].1);
            out.append("  ");
            push_decimal(&mut out, chain_id);
            out.append(": {\n");
            let ghost head = out@;
            let mut j: usize = 0;
            while j < contracts.len()
                invariant
                    0 <= j <= contracts.len(),
                    out@ == head + crate::render::entries_text(contracts.deep_view().take(j as int)),
                decreases contracts.len() - j,
            {
                out.append("    \"");
                out.append(contracts[j].0.as_str());
                out.append("\": \"");
                out.append(contracts[j].1.as_str());
                out.append("\",\n");
                proof {
                    let es = contracts.deep_view().take(j as int + 1);
                    assert(es.drop_last() =~= contracts.deep_view().take(j as int));
                    assert(out@ =~= head + crate::render::entries_text(es));
                }
                j = j + 1;
            }
            out.append("  },\n");
            proof {
                assert(contracts.deep_view().take(j as int) =~= contracts.deep_view());
                let ns = t.take(i as int + 1);
                assert(ns.drop_last() =~= t.take(i as int));
                assert(out@ =~= "export const ContractAddress = {\n"@ + crate::render::networks_text(ns));
            }
            i = i + 1;
        }
        out.append("} as const;\n");
        assert(t.take(i as int) =~= t);
        assert(out@ =~= addresses_text(t));
        out
    }
}

} // verus!
