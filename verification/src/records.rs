//! The rows of the `deployments` and `mints` tables, and the new rows that
//! an inscription found in a transaction gives.

use vstd::prelude::*;
use vstd::utf8::{decode_utf8, valid_utf8};
use crate::hex_text::{bytes_to_hex_str, hex_encode};
use crate::inscription::{InscriptionDeploy, InscriptionMint};
use crate::text::utf8_text;

verus! {

/// A row of `deployments`: a deployed ticker with its supply so far.
#[derive(Debug)]
pub struct Deployment {
    pub id: i32,
    pub p: String,
    pub op: String,
    pub tick: String,
    pub max: String,
    pub lim: String,
    pub input_data: String,
    pub minted: String,
    pub holders: i64,
    pub trx_hash: String,
    pub chain_id: i64,
    pub from_address: String,
    pub to_address: String,
    pub height: i64,
    pub timestamp: i64,
}

/// A row of `mints`: one accepted mint.
#[derive(Debug)]
pub struct Mint {
    pub id: i32,
    pub p: String,
    pub op: String,
    pub tick: String,
    pub tick_id: String,
    pub amt: String,
    pub input_data: String,
    pub trx_hash: String,
    pub chain_id: i64,
    pub from_address: String,
    pub to_address: String,
    pub height: i64,
    pub timestamp: i64,
}

/// A row to insert into `deployments`.
#[derive(Debug)]
pub struct NewDeployment {
    pub p: String,
    pub op: String,
    pub tick: String,
    pub max: String,
    pub lim: String,
    pub input_data: String,
    pub minted: String,
    pub holders: i64,
    pub trx_hash: String,
    pub chain_id: i64,
    pub from_address: String,
    pub to_address: String,
    pub height: i64,
    pub timestamp: i64,
}

/// A row to insert into `mints`.
#[derive(Debug)]
pub struct NewMint {
    pub p: String,
    pub op: String,
    pub tick: String,
    pub tick_id: String,
    pub amt: String,
    pub input_data: String,
    pub trx_hash: String,
    pub chain_id: i64,
    pub from_address: String,
    pub to_address: String,
    pub height: i64,
    pub timestamp: i64,
}

/// What a row records of the transaction that carried an inscription: its
/// input as text, its hash and addresses as `0x` hex, the chain, the block
/// height and the block time.
#[derive(Debug)]
pub struct TxRecord {
    pub input_data: String,
    pub trx_hash: String,
    pub chain_id: i64,
    pub from_address: String,
    pub to_address: String,
    pub height: i64,
    pub timestamp: i64,
}

impl TxRecord {
    /// The record of a transaction with input `input`, hash `hash`, sender
    /// `from` and receiver `to`, in block `height` of chain `chain_id` made at
    /// `timestamp`; `None` where the input is not valid UTF-8.
    pub fn new(
        input: &Vec<u8>,
        hash: &[u8],
        from: &[u8],
        to: &[u8],
        chain_id: u32,
        height: u32,
        timestamp: u32,
    ) -> (res: Option<TxRecord>)
        ensures
            res is Some <==> valid_utf8(input@),
            res matches Some(r) ==> {
                &&& r.input_data@ == decode_utf8(input@)
                &&& r.trx_hash@ == seq!['0', 'x'] + hex_encode(hash@)
                &&& r.from_address@ == seq!['0', 'x'] + hex_encode(from@)
                &&& r.to_address@ == seq!['0', 'x'] + hex_encode(to@)
                &&& r.chain_id == chain_id as i64
                &&& r.height == height as i64
                &&& r.timestamp == timestamp as i64
            },
    {
        match utf8_text(input) {
            Some(input_data) => Some(
                TxRecord {
                    input_data,
                    trx_hash: bytes_to_hex_str(hash),
                    chain_id: chain_id as i64,
                    from_address: bytes_to_hex_str(from),
                    to_address: bytes_to_hex_str(to),
                    height: height as i64,
                    timestamp: timestamp as i64,
                },
            ),
            None => None,
        }
    }
}

impl NewDeployment {
    /// The row for a deployment found in a transaction: nothing minted yet
    /// (`"0"`) and no holders.
    pub fn from_inscription(data: &InscriptionDeploy, tx: &TxRecord) -> (res: NewDeployment)
        ensures
            res.p == data.p,
            res.op == data.op,
            res.tick == data.tick,
            res.max == data.max,
            res.lim == data.lim,
            res.minted@ == seq!['0'],
            res.holders == 0,
            res.input_data == tx.input_data,
            res.trx_hash == tx.trx_hash,
            res.chain_id == tx.chain_id,
            res.from_address == tx.from_address,
            res.to_address == tx.to_address,
            res.height == tx.height,
            res.timestamp == tx.timestamp,
    {
        let minted = String::from_str("0");
        proof {
            reveal_strlit("0");
        }
        NewDeployment {
            p: data.p.clone(),
            op: data.op.clone(),
            tick: data.tick.clone(),
            max: data.max.clone(),
            lim: data.lim.clone(),
            input_data: tx.input_data.clone(),
            minted,
            holders: 0,
            trx_hash: tx.trx_hash.clone(),
            chain_id: tx.chain_id,
            from_address: tx.from_address.clone(),
            to_address: tx.to_address.clone(),
            height: tx.height,
            timestamp: tx.timestamp,
        }
    }
}

impl NewMint {
    /// The row for a mint found in a transaction; the inscription's `id`
    /// is kept as `tick_id`.
    pub fn from_inscription(data: &InscriptionMint, tx: &TxRecord) -> (res: NewMint)
        ensures
            res.p == data.p,
            res.op == data.op,
            res.tick == data.tick,
            res.tick_id == data.id,
            res.amt == data.amt,
            res.input_data == tx.input_data,
            res.trx_hash == tx.trx_hash,
            res.chain_id == tx.chain_id,
            res.from_address == tx.from_address,
            res.to_address == tx.to_address,
            res.height == tx.height,
            res.timestamp == tx.timestamp,
    {
        NewMint {
            p: data.p.clone(),
            op: data.op.clone(),
            tick: data.tick.clone(),
            tick_id: data.id.clone(),
            amt: data.amt.clone(),
            input_data: tx.input_data.clone(),
            trx_hash: tx.trx_hash.clone(),
            chain_id: tx.chain_id,
            from_address: tx.from_address.clone(),
            to_address: tx.to_address.clone(),
            height: tx.height,
            timestamp: tx.timestamp,
        }
    }
}

} // verus!
