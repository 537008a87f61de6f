use vstd::prelude::*;

verus! {

/// Header of a transaction message. The three counters partition the flat
/// account-key table into signers/non-signers and writable/readonly ranges.
#[derive(Clone, Copy, Debug, PartialEq, Eq, Structural)]
pub struct MessageHeader {
    pub num_required_signatures: u8,
    pub num_readonly_signed_accounts: u8,
    pub num_readonly_unsigned_accounts: u8,
}

/// One compiled instruction: a program-id index and account indices into
/// the owning message's account-key table, plus opaque data bytes.
#[derive(Debug)]
pub struct CompiledInstruction {
    pub program_id_index: u8,
    pub accounts: Vec<u8>,
    pub data: Vec<u8>,
}

/// Mathematical value of a compiled instruction.
#[verifier::ext_equal]
pub struct CompiledIxData {
    pub program_id_index: u8,
    pub accounts: Seq<u8>,
    pub data: Seq<u8>,
}

impl View for CompiledInstruction {
    type V = CompiledIxData;

    open spec fn view(&self) -> CompiledIxData {
        CompiledIxData {
            program_id_index: self.program_id_index,
            accounts: self.accounts@,
            data: self.data@,
        }
    }
}

/// A transaction message in compiled form: header, flat account-key table
/// (each key a 32-byte address), and the compiled instructions.
#[derive(Debug)]
pub struct Message {
    pub header: MessageHeader,
    pub account_keys: Vec<Vec<u8>>,
    pub instructions: Vec<CompiledInstruction>,
}

/// Mathematical value of a message.
#[verifier::ext_equal]
pub struct MessageData {
    pub header: MessageHeader,
    pub account_keys: Seq<Seq<u8>>,
    pub instructions: Seq<CompiledIxData>,
}

impl View for Message {
    type V = MessageData;

    open spec fn view(&self) -> MessageData {
        MessageData {
            header: self.header,
            account_keys: self.account_keys@.map_values(|k: Vec<u8>| k@),
            instructions: self.instructions@.map_values(|ix: CompiledInstruction| ix@),
        }
    }
}

impl MessageData {
    /// The signers occupy the first `num_required_signatures` positions of
    /// the account-key table.
    pub open spec fn spec_is_signer(self, i: int) -> bool {
        i < self.header.num_required_signatures as int
    }

    /// Conservative writability from the header partitioning: among the
    /// signers the readonly ones come last, and among the non-signers the
    /// readonly ones come last as well.
    pub open spec fn spec_is_maybe_writable(self, i: int) -> bool {
        ||| i < self.header.num_required_signatures as int
                - self.header.num_readonly_signed_accounts as int
        ||| (self.header.num_required_signatures as int <= i
                && i < self.account_keys.len() - self.header.num_readonly_unsigned_accounts as int)
    }
}

impl Message {
    /// Whether the account at position `index` must sign the transaction.
    pub fn is_signer(&self, index: usize) -> (r: bool)
        ensures
            r == self@.spec_is_signer(index as int),
    {
        index < self.header.num_required_signatures as usize
    }

    /// Whether the account at position `index` may be written, judged
    /// conservatively from the header partitioning alone.
    pub fn is_maybe_writable(&self, index: usize) -> (r: bool)
        ensures
            r == self@.spec_is_maybe_writable(index as int),
    {
        let nrs = self.header.num_required_signatures as usize;
        let nros = self.header.num_readonly_signed_accounts as usize;
        let nrou = self.header.num_readonly_unsigned_accounts as usize;
        let n = self.account_keys.len();
        let writable_signer = index < nrs && nrs - index > nros;
        let writable_nonsigner = index >= nrs && index < n && n - index > nrou;
        writable_signer || writable_nonsigner
    }
}

/// One resolved account role of a decoded instruction.
#[derive(Debug)]
pub struct AccountMeta {
    pub pubkey: Vec<u8>,
    pub is_signer: bool,
    pub is_writable: bool,
}

/// Mathematical value of an account role.
#[verifier::ext_equal]
pub struct AccountData {
    pub pubkey: Seq<u8>,
    pub is_signer: bool,
    pub is_writable: bool,
}

impl View for AccountMeta {
    type V = AccountData;

    open spec fn view(&self) -> AccountData {
        AccountData { pubkey: self.pubkey@, is_signer: self.is_signer, is_writable: self.is_writable }
    }
}

/// A fully-addressed instruction: program identity, ordered account roles,
/// and the raw data bytes. Derived, never persisted.
#[derive(Debug)]
pub struct DecodedInstruction {
    pub program_id: Vec<u8>,
    pub accounts: Vec<AccountMeta>,
    pub data: Vec<u8>,
}

/// Mathematical value of a decoded instruction.
#[verifier::ext_equal]
pub struct DecodedIxData {
    pub program_id: Seq<u8>,
    pub accounts: Seq<AccountData>,
    pub data: Seq<u8>,
}

impl View for DecodedInstruction {
    type V = DecodedIxData;

    open spec fn view(&self) -> DecodedIxData {
        DecodedIxData {
            program_id: self.program_id@,
            accounts: self.accounts@.map_values(|a: AccountMeta| a@),
            data: self.data@,
        }
    }
}

/// The views of a sequence of decoded instructions.
pub open spec fn decoded_views(s: Seq<DecodedInstruction>) -> Seq<DecodedIxData> {
    s.map_values(|d: DecodedInstruction| d@)
}

/// Every index of the compiled instruction fits the message's account-key
/// table; decoding fails with a numerical-overflow condition otherwise.
pub open spec fn compiled_ix_resolvable(ix: CompiledIxData, msg: MessageData) -> bool {
    &&& (ix.program_id_index as int) < msg.account_keys.len()
    &&& forall|j: int| 0 <= j < ix.accounts.len()
        ==> (#[trigger] ix.accounts[j] as int) < msg.account_keys.len()
}

/// Value of decoding a resolvable compiled instruction against its message.
pub open spec fn spec_decompile(ix: CompiledIxData, msg: MessageData) -> DecodedIxData {
    DecodedIxData {
        program_id: msg.account_keys[ix.program_id_index as int],
        accounts: Seq::new(
            ix.accounts.len(),
            |j: int|
                AccountData {
                    pubkey: msg.account_keys[ix.accounts[j] as int],
                    is_signer: msg.spec_is_signer(ix.accounts[j] as int),
                    is_writable: msg.spec_is_maybe_writable(ix.accounts[j] as int),
                },
        ),
        data: ix.data,
    }
}

} // verus!
