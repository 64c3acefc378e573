//! What an operation hands back: the requests that the host is to send, in
//! order, and the attributes of the result.

use crate::metadata::{Metadata, MetadataModel};
use crate::error::ContractError;
use crate::msg::{ContractInfo, ContractInfoModel};
use vstd::prelude::*;

verus! {

/// A request to another contract.
#[derive(Debug, PartialEq, Eq)]
pub enum Command {
    /// Ask the registry to notify this contract of tokens sent to it.
    RegisterReceiveNft { code_hash: String, contract: ContractInfo },
    /// Set this contract's viewing key with a contract.
    SetViewingKey { key: String, contract: ContractInfo },
    /// Pass an amount of a payment token on.
    Snip20Transfer { recipient: String, amount: u128, contract: ContractInfo },
    /// Retire tokens.
    BatchBurnNft { token_ids: Vec<String>, contract: ContractInfo },
    /// Replace both sides of a token's metadata.
    SetMetadata {
        token_id: String,
        public_metadata: Metadata,
        private_metadata: Metadata,
        contract: ContractInfo,
    },
    /// Send one token to an account.
    TransferNft { recipient: String, token_id: String, contract: ContractInfo },
    /// Send tokens to an account.
    BatchTransferNft { recipient: String, token_ids: Vec<String>, contract: ContractInfo },
}

/// What a [`Command`] holds.
#[verifier::ext_equal]
pub enum CommandModel {
    RegisterReceiveNft { code_hash: Seq<char>, contract: ContractInfoModel },
    SetViewingKey { key: Seq<char>, contract: ContractInfoModel },
    Snip20Transfer { recipient: Seq<char>, amount: u128, contract: ContractInfoModel },
    BatchBurnNft { token_ids: Seq<Seq<char>>, contract: ContractInfoModel },
    SetMetadata {
        token_id: Seq<char>,
        public_metadata: MetadataModel,
        private_metadata: MetadataModel,
        contract: ContractInfoModel,
    },
    TransferNft { recipient: Seq<char>, token_id: Seq<char>, contract: ContractInfoModel },
    BatchTransferNft { recipient: Seq<char>, token_ids: Seq<Seq<char>>, contract: ContractInfoModel },
}

impl View for Command {
    type V = CommandModel;

    open spec fn view(&self) -> CommandModel {
        match self {
            Command::RegisterReceiveNft { code_hash, contract } => CommandModel::RegisterReceiveNft {
                code_hash: code_hash@,
                contract: contract@,
            },
            Command::SetViewingKey { key, contract } => CommandModel::SetViewingKey {
                key: key@,
                contract: contract@,
            },
            Command::Snip20Transfer { recipient, amount, contract } => CommandModel::Snip20Transfer {
                recipient: recipient@,
                amount: *amount,
                contract: contract@,
            },
            Command::BatchBurnNft { token_ids, contract } => CommandModel::BatchBurnNft {
                token_ids: token_ids.deep_view(),
                contract: contract@,
            },
            Command::SetMetadata {
                token_id,
                public_metadata,
                private_metadata,
                contract,
            } => CommandModel::SetMetadata {
                token_id: token_id@,
                public_metadata: public_metadata@,
                private_metadata: private_metadata@,
                contract: contract@,
            },
            Command::TransferNft { recipient, token_id, contract } => CommandModel::TransferNft {
                recipient: recipient@,
                token_id: token_id@,
                contract: contract@,
            },
            Command::BatchTransferNft { recipient, token_ids, contract } => CommandModel::BatchTransferNft {
                recipient: recipient@,
                token_ids: token_ids.deep_view(),
                contract: contract@,
            },
        }
    }
}

impl DeepView for Command {
    type V = CommandModel;

    open spec fn deep_view(&self) -> CommandModel {
        self@
    }
}

/// One attribute of a result.
#[derive(Debug, PartialEq, Eq)]
pub struct Attribute {
    pub key: String,
    pub value: String,
}

/// What an [`Attribute`] holds.
#[verifier::ext_equal]
pub struct AttributeModel {
    pub key: Seq<char>,
    pub value: Seq<char>,
}

impl View for Attribute {
    type V = AttributeModel;

    open spec fn view(&self) -> AttributeModel {
        AttributeModel { key: self.key@, value: self.value@ }
    }
}

impl DeepView for Attribute {
    type V = AttributeModel;

    open spec fn deep_view(&self) -> AttributeModel {
        self@
    }
}

/// The result of a successful operation.
#[derive(Debug, PartialEq, Eq)]
pub struct Response {
    /// The requests to send, in this order.
    pub messages: Vec<Command>,
    /// The attributes of the result.
    pub attributes: Vec<Attribute>,
}

/// What a [`Response`] holds.
#[verifier::ext_equal]
pub struct ResponseModel {
    pub messages: Seq<CommandModel>,
    pub attributes: Seq<AttributeModel>,
}

impl ResponseModel {
    /// The result that asks for nothing.
    pub open spec fn empty() -> Self {
        ResponseModel { messages: Seq::empty(), attributes: Seq::empty() }
    }
}

impl View for Response {
    type V = ResponseModel;

    open spec fn view(&self) -> ResponseModel {
        ResponseModel {
            messages: self.messages.deep_view(),
            attributes: self.attributes.deep_view(),
        }
    }
}

impl DeepView for Response {
    type V = ResponseModel;

    open spec fn deep_view(&self) -> ResponseModel {
        self@
    }
}

impl Response {
    /// A result that asks for nothing.
    pub fn new() -> (r: Self)
        ensures
            r@ == ResponseModel::empty(),
    {
        let r = Response { messages: Vec::new(), attributes: Vec::new() };
        assert(r@ =~= ResponseModel::empty());
        r
    }
}

/// Whether the result `r` is the result `expected`.
pub open spec fn is_result(
    r: Result<Response, ContractError>,
    expected: Result<ResponseModel, ContractError>,
) -> bool {
    match expected {
        Ok(response) => r is Ok && r.unwrap()@ == response,
        Err(e) => r == Err::<Response, ContractError>(e),
    }
}

} // verus!
