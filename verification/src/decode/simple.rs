//! Instructions out of their spellings.

use vstd::prelude::*;

use crate::decode::names::{
    convert_named, exchange_named, extract_named, float_named, int_named, lane_named,
    load_lane_named, load_named, read_convert, read_exchange, read_extract, read_float, read_int,
    read_lane, read_load, read_load_lane, read_replace, read_rmw, read_store, read_store_lane,
    replace_named, rmw_named, store_lane_named, store_named,
};
use crate::decode::spelling::{
    find_index, find_number, find_signed, index_behind, number_behind, signed_behind,
};
use crate::decode::types::{
    block_type_in, find_ref_type, find_val_type, heap_type_in, read_block_type, read_heap_type,
    ref_type_behind, val_type_behind,
};
use crate::ops::Operator;
use crate::text::same;
use crate::wasm::MemArg;

verus! {

/// The memory access that the spelling holds.
pub open spec fn memarg_in(t: Seq<char>) -> Option<MemArg> {
    match (number_behind(t, "offset: "@, u64::MAX as nat), index_behind(t, "memory: "@)) {
        (Some(offset), Some(memory)) => Some(MemArg { offset: offset as u64, memory }),
        _ => None,
    }
}

/// The lane that the spelling holds.
pub open spec fn lane_in(t: Seq<char>) -> Option<u8> {
    match number_behind(t, "lane: "@, u8::MAX as nat) {
        Some(n) => Some(n as u8),
        None => None,
    }
}

fn read_memarg(t: &Vec<char>) -> (r: Option<MemArg>)
    ensures
        r == memarg_in(t@),
{
    match (find_number(t, "offset: ", u64::MAX), find_index(t, "memory: ")) {
        (Some(offset), Some(memory)) => Some(MemArg { offset, memory }),
        _ => None,
    }
}

fn read_lane_index(t: &Vec<char>) -> (r: Option<u8>)
    ensures
        r == lane_in(t@),
{
    match find_number(t, "lane: ", 255) {
        Some(n) => Some(n as u8),
        None => None,
    }
}

/// The operators of which nothing but the name matters.
pub open spec fn plain_op(w: Seq<char>, t: Seq<char>) -> Option<Operator> {
    if w == "Nop"@ {
        Some(Operator::Nop)
    } else if w == "Unreachable"@ {
        Some(Operator::Unreachable)
    } else if w == "Else"@ {
        Some(Operator::Else)
    } else if w == "End"@ {
        Some(Operator::End)
    } else if w == "Return"@ {
        Some(Operator::Return)
    } else if w == "Drop"@ {
        Some(Operator::Drop)
    } else if w == "Select"@ {
        Some(Operator::Select)
    } else if w == "CatchAll"@ {
        Some(Operator::CatchAll)
    } else if w == "AtomicFence"@ {
        Some(Operator::AtomicFence)
    } else if w == "RefIsNull"@ {
        Some(Operator::RefIsNull)
    } else if w == "ArrayLen"@ {
        Some(Operator::ArrayLen)
    } else if w == "RefI31"@ {
        Some(Operator::RefI31)
    } else if w == "AnyConvertExtern"@ {
        Some(Operator::AnyConvertExtern)
    } else if w == "ExternConvertAny"@ {
        Some(Operator::ExternConvertAny)
    } else if w == "TryTable"@ {
        Some(Operator::TryTable)
    } else if w == "ArrayNewData"@ {
        Some(Operator::ArrayNewData)
    } else if w == "ArrayNewElem"@ {
        Some(Operator::ArrayNewElem)
    } else if w == "ArrayInitData"@ {
        Some(Operator::ArrayInitData)
    } else if w == "ArrayInitElem"@ {
        Some(Operator::ArrayInitElem)
    } else {
        None
    }
}

/// The operators of which nothing but the name matters.
fn read_plain(w: &str, t: &Vec<char>) -> (r: Option<Operator>)
    ensures
        r == plain_op(w@, t@),
{
    if same(w, "Nop") {
        Some(Operator::Nop)
    } else if same(w, "Unreachable") {
        Some(Operator::Unreachable)
    } else if same(w, "Else") {
        Some(Operator::Else)
    } else if same(w, "End") {
        Some(Operator::End)
    } else if same(w, "Return") {
        Some(Operator::Return)
    } else if same(w, "Drop") {
        Some(Operator::Drop)
    } else if same(w, "Select") {
        Some(Operator::Select)
    } else if same(w, "CatchAll") {
        Some(Operator::CatchAll)
    } else if same(w, "AtomicFence") {
        Some(Operator::AtomicFence)
    } else if same(w, "RefIsNull") {
        Some(Operator::RefIsNull)
    } else if same(w, "ArrayLen") {
        Some(Operator::ArrayLen)
    } else if same(w, "RefI31") {
        Some(Operator::RefI31)
    } else if same(w, "AnyConvertExtern") {
        Some(Operator::AnyConvertExtern)
    } else if same(w, "ExternConvertAny") {
        Some(Operator::ExternConvertAny)
    } else if same(w, "TryTable") {
        Some(Operator::TryTable)
    } else if same(w, "ArrayNewData") {
        Some(Operator::ArrayNewData)
    } else if same(w, "ArrayNewElem") {
        Some(Operator::ArrayNewElem)
    } else if same(w, "ArrayInitData") {
        Some(Operator::ArrayInitData)
    } else if same(w, "ArrayInitElem") {
        Some(Operator::ArrayInitElem)
    } else {
        None
    }
}

/// The operators of control flow and variables with indices.
pub open spec fn control_op(w: Seq<char>, t: Seq<char>) -> Option<Operator> {
    if w == "Br"@ {
        Some(
            match index_behind(t, "relative_depth: "@) {
                Some(relative_depth) => Operator::Br { relative_depth },
                None => Operator::Other,
            },
        )
    } else if w == "BrIf"@ {
        Some(
            match index_behind(t, "relative_depth: "@) {
                Some(relative_depth) => Operator::BrIf { relative_depth },
                None => Operator::Other,
            },
        )
    } else if w == "Rethrow"@ {
        Some(
            match index_behind(t, "relative_depth: "@) {
                Some(relative_depth) => Operator::Rethrow { relative_depth },
                None => Operator::Other,
            },
        )
    } else if w == "Call"@ {
        Some(
            match index_behind(t, "function_index: "@) {
                Some(function_index) => Operator::Call { function_index },
                None => Operator::Other,
            },
        )
    } else if w == "ReturnCall"@ {
        Some(
            match index_behind(t, "function_index: "@) {
                Some(function_index) => Operator::ReturnCall { function_index },
                None => Operator::Other,
            },
        )
    } else if w == "CallIndirect"@ {
        Some(
            match (index_behind(t, "type_index: "@), index_behind(t, "table_index: "@)) {
                (Some(type_index), Some(table_index)) => {
                    Operator::CallIndirect { type_index, table_index }
                },
                _ => Operator::Other,
            },
        )
    } else if w == "ReturnCallIndirect"@ {
        Some(
            match (index_behind(t, "type_index: "@), index_behind(t, "table_index: "@)) {
                (Some(type_index), Some(table_index)) => {
                    Operator::ReturnCallIndirect { type_index, table_index }
                },
                _ => Operator::Other,
            },
        )
    } else if w == "CallRef"@ {
        Some(
            match index_behind(t, "type_index: "@) {
                Some(type_index) => Operator::CallRef { type_index },
                None => Operator::Other,
            },
        )
    } else if w == "ReturnCallRef"@ {
        Some(
            match index_behind(t, "type_index: "@) {
                Some(type_index) => Operator::ReturnCallRef { type_index },
                None => Operator::Other,
            },
        )
    } else if w == "Catch"@ {
        Some(
            match index_behind(t, "tag_index: "@) {
                Some(tag_index) => Operator::Catch { tag_index },
                None => Operator::Other,
            },
        )
    } else if w == "Throw"@ {
        Some(
            match index_behind(t, "tag_index: "@) {
                Some(tag_index) => Operator::Throw { tag_index },
                None => Operator::Other,
            },
        )
    } else if w == "LocalGet"@ {
        Some(
            match index_behind(t, "local_index: "@) {
                Some(local_index) => Operator::LocalGet { local_index },
                None => Operator::Other,
            },
        )
    } else if w == "LocalSet"@ {
        Some(
            match index_behind(t, "local_index: "@) {
                Some(local_index) => Operator::LocalSet { local_index },
                None => Operator::Other,
            },
        )
    } else if w == "LocalTee"@ {
        Some(
            match index_behind(t, "local_index: "@) {
                Some(local_index) => Operator::LocalTee { local_index },
                None => Operator::Other,
            },
        )
    } else if w == "GlobalGet"@ {
        Some(
            match index_behind(t, "global_index: "@) {
                Some(global_index) => Operator::GlobalGet { global_index },
                None => Operator::Other,
            },
        )
    } else if w == "GlobalSet"@ {
        Some(
            match index_behind(t, "global_index: "@) {
                Some(global_index) => Operator::GlobalSet { global_index },
                None => Operator::Other,
            },
        )
    } else {
        None
    }
}

/// The operators of control flow and variables with indices.
fn read_control(w: &str, t: &Vec<char>) -> (r: Option<Operator>)
    ensures
        r == control_op(w@, t@),
{
    if same(w, "Br") {
        Some(
            match find_index(t, "relative_depth: ") {
                Some(relative_depth) => Operator::Br { relative_depth },
                None => Operator::Other,
            },
        )
    } else if same(w, "BrIf") {
        Some(
            match find_index(t, "relative_depth: ") {
                Some(relative_depth) => Operator::BrIf { relative_depth },
                None => Operator::Other,
            },
        )
    } else if same(w, "Rethrow") {
        Some(
            match find_index(t, "relative_depth: ") {
                Some(relative_depth) => Operator::Rethrow { relative_depth },
                None => Operator::Other,
            },
        )
    } else if same(w, "Call") {
        Some(
            match find_index(t, "function_index: ") {
                Some(function_index) => Operator::Call { function_index },
                None => Operator::Other,
            },
        )
    } else if same(w, "ReturnCall") {
        Some(
            match find_index(t, "function_index: ") {
                Some(function_index) => Operator::ReturnCall { function_index },
                None => Operator::Other,
            },
        )
    } else if same(w, "CallIndirect") {
        Some(
            match (find_index(t, "type_index: "), find_index(t, "table_index: ")) {
                (Some(type_index), Some(table_index)) => {
                    Operator::CallIndirect { type_index, table_index }
                },
                _ => Operator::Other,
            },
        )
    } else if same(w, "ReturnCallIndirect") {
        Some(
            match (find_index(t, "type_index: "), find_index(t, "table_index: ")) {
                (Some(type_index), Some(table_index)) => {
                    Operator::ReturnCallIndirect { type_index, table_index }
                },
                _ => Operator::Other,
            },
        )
    } else if same(w, "CallRef") {
        Some(
            match find_index(t, "type_index: ") {
                Some(type_index) => Operator::CallRef { type_index },
                None => Operator::Other,
            },
        )
    } else if same(w, "ReturnCallRef") {
        Some(
            match find_index(t, "type_index: ") {
                Some(type_index) => Operator::ReturnCallRef { type_index },
                None => Operator::Other,
            },
        )
    } else if same(w, "Catch") {
        Some(
            match find_index(t, "tag_index: ") {
                Some(tag_index) => Operator::Catch { tag_index },
                None => Operator::Other,
            },
        )
    } else if same(w, "Throw") {
        Some(
            match find_index(t, "tag_index: ") {
                Some(tag_index) => Operator::Throw { tag_index },
                None => Operator::Other,
            },
        )
    } else if same(w, "LocalGet") {
        Some(
            match find_index(t, "local_index: ") {
                Some(local_index) => Operator::LocalGet { local_index },
                None => Operator::Other,
            },
        )
    } else if same(w, "LocalSet") {
        Some(
            match find_index(t, "local_index: ") {
                Some(local_index) => Operator::LocalSet { local_index },
                None => Operator::Other,
            },
        )
    } else if same(w, "LocalTee") {
        Some(
            match find_index(t, "local_index: ") {
                Some(local_index) => Operator::LocalTee { local_index },
                None => Operator::Other,
            },
        )
    } else if same(w, "GlobalGet") {
        Some(
            match find_index(t, "global_index: ") {
                Some(global_index) => Operator::GlobalGet { global_index },
                None => Operator::Other,
            },
        )
    } else if same(w, "GlobalSet") {
        Some(
            match find_index(t, "global_index: ") {
                Some(global_index) => Operator::GlobalSet { global_index },
                None => Operator::Other,
            },
        )
    } else {
        None
    }
}

/// The operators of memories and tables with indices.
pub open spec fn storage_op(w: Seq<char>, t: Seq<char>) -> Option<Operator> {
    if w == "MemorySize"@ {
        Some(
            match index_behind(t, "mem: "@) {
                Some(mem) => Operator::MemorySize { mem },
                None => Operator::Other,
            },
        )
    } else if w == "MemoryGrow"@ {
        Some(
            match index_behind(t, "mem: "@) {
                Some(mem) => Operator::MemoryGrow { mem },
                None => Operator::Other,
            },
        )
    } else if w == "MemoryFill"@ {
        Some(
            match index_behind(t, "mem: "@) {
                Some(mem) => Operator::MemoryFill { mem },
                None => Operator::Other,
            },
        )
    } else if w == "MemoryCopy"@ {
        Some(
            match (index_behind(t, "dst_mem: "@), index_behind(t, "src_mem: "@)) {
                (Some(dst_mem), Some(src_mem)) => Operator::MemoryCopy { dst_mem, src_mem },
                _ => Operator::Other,
            },
        )
    } else if w == "MemoryInit"@ {
        Some(
            match (index_behind(t, "data_index: "@), index_behind(t, "mem: "@)) {
                (Some(data_index), Some(mem)) => Operator::MemoryInit { data_index, mem },
                _ => Operator::Other,
            },
        )
    } else if w == "DataDrop"@ {
        Some(
            match index_behind(t, "data_index: "@) {
                Some(data_index) => Operator::DataDrop { data_index },
                None => Operator::Other,
            },
        )
    } else if w == "TableCopy"@ {
        Some(
            match (index_behind(t, "dst_table: "@), index_behind(t, "src_table: "@)) {
                (Some(dst_table), Some(src_table)) => Operator::TableCopy { dst_table, src_table },
                _ => Operator::Other,
            },
        )
    } else if w == "TableInit"@ {
        Some(
            match (index_behind(t, "elem_index: "@), index_behind(t, "table: "@)) {
                (Some(elem_index), Some(table)) => Operator::TableInit { elem_index, table },
                _ => Operator::Other,
            },
        )
    } else if w == "ElemDrop"@ {
        Some(
            match index_behind(t, "elem_index: "@) {
                Some(elem_index) => Operator::ElemDrop { elem_index },
                None => Operator::Other,
            },
        )
    } else if w == "TableGet"@ {
        Some(
            match index_behind(t, "table: "@) {
                Some(table) => Operator::TableGet { table },
                None => Operator::Other,
            },
        )
    } else if w == "TableSet"@ {
        Some(
            match index_behind(t, "table: "@) {
                Some(table) => Operator::TableSet { table },
                None => Operator::Other,
            },
        )
    } else if w == "TableSize"@ {
        Some(
            match index_behind(t, "table: "@) {
                Some(table) => Operator::TableSize { table },
                None => Operator::Other,
            },
        )
    } else if w == "TableGrow"@ {
        Some(
            match index_behind(t, "table: "@) {
                Some(table) => Operator::TableGrow { table },
                None => Operator::Other,
            },
        )
    } else if w == "TableFill"@ {
        Some(
            match index_behind(t, "table: "@) {
                Some(table) => Operator::TableFill { table },
                None => Operator::Other,
            },
        )
    } else {
        None
    }
}

/// The operators of memories and tables with indices.
fn read_storage(w: &str, t: &Vec<char>) -> (r: Option<Operator>)
    ensures
        r == storage_op(w@, t@),
{
    if same(w, "MemorySize") {
        Some(
            match find_index(t, "mem: ") {
                Some(mem) => Operator::MemorySize { mem },
                None => Operator::Other,
            },
        )
    } else if same(w, "MemoryGrow") {
        Some(
            match find_index(t, "mem: ") {
                Some(mem) => Operator::MemoryGrow { mem },
                None => Operator::Other,
            },
        )
    } else if same(w, "MemoryFill") {
        Some(
            match find_index(t, "mem: ") {
                Some(mem) => Operator::MemoryFill { mem },
                None => Operator::Other,
            },
        )
    } else if same(w, "MemoryCopy") {
        Some(
            match (find_index(t, "dst_mem: "), find_index(t, "src_mem: ")) {
                (Some(dst_mem), Some(src_mem)) => Operator::MemoryCopy { dst_mem, src_mem },
                _ => Operator::Other,
            },
        )
    } else if same(w, "MemoryInit") {
        Some(
            match (find_index(t, "data_index: "), find_index(t, "mem: ")) {
                (Some(data_index), Some(mem)) => Operator::MemoryInit { data_index, mem },
                _ => Operator::Other,
            },
        )
    } else if same(w, "DataDrop") {
        Some(
            match find_index(t, "data_index: ") {
                Some(data_index) => Operator::DataDrop { data_index },
                None => Operator::Other,
            },
        )
    } else if same(w, "TableCopy") {
        Some(
            match (find_index(t, "dst_table: "), find_index(t, "src_table: ")) {
                (Some(dst_table), Some(src_table)) => Operator::TableCopy { dst_table, src_table },
                _ => Operator::Other,
            },
        )
    } else if same(w, "TableInit") {
        Some(
            match (find_index(t, "elem_index: "), find_index(t, "table: ")) {
                (Some(elem_index), Some(table)) => Operator::TableInit { elem_index, table },
                _ => Operator::Other,
            },
        )
    } else if same(w, "ElemDrop") {
        Some(
            match find_index(t, "elem_index: ") {
                Some(elem_index) => Operator::ElemDrop { elem_index },
                None => Operator::Other,
            },
        )
    } else if same(w, "TableGet") {
        Some(
            match find_index(t, "table: ") {
                Some(table) => Operator::TableGet { table },
                None => Operator::Other,
            },
        )
    } else if same(w, "TableSet") {
        Some(
            match find_index(t, "table: ") {
                Some(table) => Operator::TableSet { table },
                None => Operator::Other,
            },
        )
    } else if same(w, "TableSize") {
        Some(
            match find_index(t, "table: ") {
                Some(table) => Operator::TableSize { table },
                None => Operator::Other,
            },
        )
    } else if same(w, "TableGrow") {
        Some(
            match find_index(t, "table: ") {
                Some(table) => Operator::TableGrow { table },
                None => Operator::Other,
            },
        )
    } else if same(w, "TableFill") {
        Some(
            match find_index(t, "table: ") {
                Some(table) => Operator::TableFill { table },
                None => Operator::Other,
            },
        )
    } else {
        None
    }
}

/// The operators of references and continuations with indices.
pub open spec fn object_op(w: Seq<char>, t: Seq<char>) -> Option<Operator> {
    if w == "RefFunc"@ {
        Some(
            match index_behind(t, "function_index: "@) {
                Some(function_index) => Operator::RefFunc { function_index },
                None => Operator::Other,
            },
        )
    } else if w == "StructNew"@ {
        Some(
            match index_behind(t, "struct_type_index: "@) {
                Some(struct_type_index) => Operator::StructNew { struct_type_index },
                None => Operator::Other,
            },
        )
    } else if w == "StructGet"@ {
        Some(
            match (index_behind(t, "struct_type_index: "@), index_behind(t, "field_index: "@)) {
                (Some(struct_type_index), Some(field_index)) => {
                    Operator::StructGet { struct_type_index, field_index }
                },
                _ => Operator::Other,
            },
        )
    } else if w == "StructGetS"@ {
        Some(
            match (index_behind(t, "struct_type_index: "@), index_behind(t, "field_index: "@)) {
                (Some(struct_type_index), Some(field_index)) => {
                    Operator::StructGetS { struct_type_index, field_index }
                },
                _ => Operator::Other,
            },
        )
    } else if w == "StructGetU"@ {
        Some(
            match (index_behind(t, "struct_type_index: "@), index_behind(t, "field_index: "@)) {
                (Some(struct_type_index), Some(field_index)) => {
                    Operator::StructGetU { struct_type_index, field_index }
                },
                _ => Operator::Other,
            },
        )
    } else if w == "StructSet"@ {
        Some(
            match (index_behind(t, "struct_type_index: "@), index_behind(t, "field_index: "@)) {
                (Some(struct_type_index), Some(field_index)) => {
                    Operator::StructSet { struct_type_index, field_index }
                },
                _ => Operator::Other,
            },
        )
    } else if w == "ArrayNew"@ {
        Some(
            match index_behind(t, "array_type_index: "@) {
                Some(array_type_index) => Operator::ArrayNew { array_type_index },
                None => Operator::Other,
            },
        )
    } else if w == "ArrayGet"@ {
        Some(
            match index_behind(t, "array_type_index: "@) {
                Some(array_type_index) => Operator::ArrayGet { array_type_index },
                None => Operator::Other,
            },
        )
    } else if w == "ArrayGetS"@ {
        Some(
            match index_behind(t, "array_type_index: "@) {
                Some(array_type_index) => Operator::ArrayGetS { array_type_index },
                None => Operator::Other,
            },
        )
    } else if w == "ArrayGetU"@ {
        Some(
            match index_behind(t, "array_type_index: "@) {
                Some(array_type_index) => Operator::ArrayGetU { array_type_index },
                None => Operator::Other,
            },
        )
    } else if w == "ArraySet"@ {
        Some(
            match index_behind(t, "array_type_index: "@) {
                Some(array_type_index) => Operator::ArraySet { array_type_index },
                None => Operator::Other,
            },
        )
    } else if w == "ContNew"@ {
        Some(
            match index_behind(t, "cont_type_index: "@) {
                Some(cont_type_index) => Operator::ContNew { cont_type_index },
                None => Operator::Other,
            },
        )
    } else if w == "Suspend"@ {
        Some(
            match index_behind(t, "tag_index: "@) {
                Some(tag_index) => Operator::Suspend { tag_index },
                None => Operator::Other,
            },
        )
    } else if w == "Switch"@ {
        Some(
            match (index_behind(t, "cont_type_index: "@), index_behind(t, "tag_index: "@)) {
                (Some(cont_type_index), Some(tag_index)) => {
                    Operator::Switch { cont_type_index, tag_index }
                },
                _ => Operator::Other,
            },
        )
    } else {
        None
    }
}

/// The operators of references and continuations with indices.
fn read_object(w: &str, t: &Vec<char>) -> (r: Option<Operator>)
    ensures
        r == object_op(w@, t@),
{
    if same(w, "RefFunc") {
        Some(
            match find_index(t, "function_index: ") {
                Some(function_index) => Operator::RefFunc { function_index },
                None => Operator::Other,
            },
        )
    } else if same(w, "StructNew") {
        Some(
            match find_index(t, "struct_type_index: ") {
                Some(struct_type_index) => Operator::StructNew { struct_type_index },
                None => Operator::Other,
            },
        )
    } else if same(w, "StructGet") {
        Some(
            match (find_index(t, "struct_type_index: "), find_index(t, "field_index: ")) {
                (Some(struct_type_index), Some(field_index)) => {
                    Operator::StructGet { struct_type_index, field_index }
                },
                _ => Operator::Other,
            },
        )
    } else if same(w, "StructGetS") {
        Some(
            match (find_index(t, "struct_type_index: "), find_index(t, "field_index: ")) {
                (Some(struct_type_index), Some(field_index)) => {
                    Operator::StructGetS { struct_type_index, field_index }
                },
                _ => Operator::Other,
            },
        )
    } else if same(w, "StructGetU") {
        Some(
            match (find_index(t, "struct_type_index: "), find_index(t, "field_index: ")) {
                (Some(struct_type_index), Some(field_index)) => {
                    Operator::StructGetU { struct_type_index, field_index }
                },
                _ => Operator::Other,
            },
        )
    } else if same(w, "StructSet") {
        Some(
            match (find_index(t, "struct_type_index: "), find_index(t, "field_index: ")) {
                (Some(struct_type_index), Some(field_index)) => {
                    Operator::StructSet { struct_type_index, field_index }
                },
                _ => Operator::Other,
            },
        )
    } else if same(w, "ArrayNew") {
        Some(
            match find_index(t, "array_type_index: ") {
                Some(array_type_index) => Operator::ArrayNew { array_type_index },
                None => Operator::Other,
            },
        )
    } else if same(w, "ArrayGet") {
        Some(
            match find_index(t, "array_type_index: ") {
                Some(array_type_index) => Operator::ArrayGet { array_type_index },
                None => Operator::Other,
            },
        )
    } else if same(w, "ArrayGetS") {
        Some(
            match find_index(t, "array_type_index: ") {
                Some(array_type_index) => Operator::ArrayGetS { array_type_index },
                None => Operator::Other,
            },
        )
    } else if same(w, "ArrayGetU") {
        Some(
            match find_index(t, "array_type_index: ") {
                Some(array_type_index) => Operator::ArrayGetU { array_type_index },
                None => Operator::Other,
            },
        )
    } else if same(w, "ArraySet") {
        Some(
            match find_index(t, "array_type_index: ") {
                Some(array_type_index) => Operator::ArraySet { array_type_index },
                None => Operator::Other,
            },
        )
    } else if same(w, "ContNew") {
        Some(
            match find_index(t, "cont_type_index: ") {
                Some(cont_type_index) => Operator::ContNew { cont_type_index },
                None => Operator::Other,
            },
        )
    } else if same(w, "Suspend") {
        Some(
            match find_index(t, "tag_index: ") {
                Some(tag_index) => Operator::Suspend { tag_index },
                None => Operator::Other,
            },
        )
    } else if same(w, "Switch") {
        Some(
            match (find_index(t, "cont_type_index: "), find_index(t, "tag_index: ")) {
                (Some(cont_type_index), Some(tag_index)) => {
                    Operator::Switch { cont_type_index, tag_index }
                },
                _ => Operator::Other,
            },
        )
    } else {
        None
    }
}

/// The operators with types.
pub open spec fn typed_op(w: Seq<char>, t: Seq<char>) -> Option<Operator> {
    if w == "Block"@ {
        Some(
            match block_type_in(t) {
                Some(blockty) => Operator::Block { blockty },
                None => Operator::Other,
            },
        )
    } else if w == "Loop"@ {
        Some(
            match block_type_in(t) {
                Some(blockty) => Operator::Loop { blockty },
                None => Operator::Other,
            },
        )
    } else if w == "If"@ {
        Some(
            match block_type_in(t) {
                Some(blockty) => Operator::If { blockty },
                None => Operator::Other,
            },
        )
    } else if w == "Try"@ {
        Some(
            match block_type_in(t) {
                Some(blockty) => Operator::Try { blockty },
                None => Operator::Other,
            },
        )
    } else if w == "RefNull"@ {
        Some(
            match heap_type_in(t) {
                Some(hty) => Operator::RefNull { hty },
                None => Operator::Other,
            },
        )
    } else if w == "RefTestNonNull"@ {
        Some(
            match heap_type_in(t) {
                Some(hty) => Operator::RefTestNonNull { hty },
                None => Operator::Other,
            },
        )
    } else if w == "RefTestNullable"@ {
        Some(
            match heap_type_in(t) {
                Some(hty) => Operator::RefTestNullable { hty },
                None => Operator::Other,
            },
        )
    } else if w == "RefCastNonNull"@ {
        Some(
            match heap_type_in(t) {
                Some(hty) => Operator::RefCastNonNull { hty },
                None => Operator::Other,
            },
        )
    } else if w == "RefCastNullable"@ {
        Some(
            match heap_type_in(t) {
                Some(hty) => Operator::RefCastNullable { hty },
                None => Operator::Other,
            },
        )
    } else if w == "BrOnCast"@ {
        Some(
            match (
                index_behind(t, "relative_depth: "@),
                ref_type_behind(t, "from_ref_type: "@),
                ref_type_behind(t, "to_ref_type: "@),
            ) {
                (Some(relative_depth), Some(from_ref_type), Some(to_ref_type)) => {
                    Operator::BrOnCast { relative_depth, from_ref_type, to_ref_type }
                },
                _ => Operator::Other,
            },
        )
    } else if w == "BrOnCastFail"@ {
        Some(
            match (
                index_behind(t, "relative_depth: "@),
                ref_type_behind(t, "from_ref_type: "@),
                ref_type_behind(t, "to_ref_type: "@),
            ) {
                (Some(relative_depth), Some(from_ref_type), Some(to_ref_type)) => {
                    Operator::BrOnCastFail { relative_depth, from_ref_type, to_ref_type }
                },
                _ => Operator::Other,
            },
        )
    } else if w == "TypedSelect"@ {
        Some(
            match val_type_behind(t, " ty: "@) {
                Some(ty) => Operator::TypedSelect { ty },
                None => Operator::Other,
            },
        )
    } else {
        None
    }
}

/// The operators with types.
fn read_typed(w: &str, t: &Vec<char>) -> (r: Option<Operator>)
    ensures
        r == typed_op(w@, t@),
{
    if same(w, "Block") {
        Some(
            match read_block_type(t) {
                Some(blockty) => Operator::Block { blockty },
                None => Operator::Other,
            },
        )
    } else if same(w, "Loop") {
        Some(
            match read_block_type(t) {
                Some(blockty) => Operator::Loop { blockty },
                None => Operator::Other,
            },
        )
    } else if same(w, "If") {
        Some(
            match read_block_type(t) {
                Some(blockty) => Operator::If { blockty },
                None => Operator::Other,
            },
        )
    } else if same(w, "Try") {
        Some(
            match read_block_type(t) {
                Some(blockty) => Operator::Try { blockty },
                None => Operator::Other,
            },
        )
    } else if same(w, "RefNull") {
        Some(
            match read_heap_type(t) {
                Some(hty) => Operator::RefNull { hty },
                None => Operator::Other,
            },
        )
    } else if same(w, "RefTestNonNull") {
        Some(
            match read_heap_type(t) {
                Some(hty) => Operator::RefTestNonNull { hty },
                None => Operator::Other,
            },
        )
    } else if same(w, "RefTestNullable") {
        Some(
            match read_heap_type(t) {
                Some(hty) => Operator::RefTestNullable { hty },
                None => Operator::Other,
            },
        )
    } else if same(w, "RefCastNonNull") {
        Some(
            match read_heap_type(t) {
                Some(hty) => Operator::RefCastNonNull { hty },
                None => Operator::Other,
            },
        )
    } else if same(w, "RefCastNullable") {
        Some(
            match read_heap_type(t) {
                Some(hty) => Operator::RefCastNullable { hty },
                None => Operator::Other,
            },
        )
    } else if same(w, "BrOnCast") {
        Some(
            match (
                find_index(t, "relative_depth: "),
                find_ref_type(t, "from_ref_type: "),
                find_ref_type(t, "to_ref_type: "),
            ) {
                (Some(relative_depth), Some(from_ref_type), Some(to_ref_type)) => {
                    Operator::BrOnCast { relative_depth, from_ref_type, to_ref_type }
                },
                _ => Operator::Other,
            },
        )
    } else if same(w, "BrOnCastFail") {
        Some(
            match (
                find_index(t, "relative_depth: "),
                find_ref_type(t, "from_ref_type: "),
                find_ref_type(t, "to_ref_type: "),
            ) {
                (Some(relative_depth), Some(from_ref_type), Some(to_ref_type)) => {
                    Operator::BrOnCastFail { relative_depth, from_ref_type, to_ref_type }
                },
                _ => Operator::Other,
            },
        )
    } else if same(w, "TypedSelect") {
        Some(
            match find_val_type(t, " ty: ") {
                Some(ty) => Operator::TypedSelect { ty },
                None => Operator::Other,
            },
        )
    } else {
        None
    }
}

/// Constants, and waiting on memory.
pub open spec fn valued_op(w: Seq<char>, t: Seq<char>) -> Option<Operator> {
    if w == "I32Const"@ {
        Some(
            match signed_behind(t, "value: "@) {
                Some(n) => if i32::MIN <= n <= i32::MAX {
                    Operator::I32Const { value: n as i32 }
                } else {
                    Operator::Other
                },
                None => Operator::Other,
            },
        )
    } else if w == "I64Const"@ {
        Some(
            match signed_behind(t, "value: "@) {
                Some(n) => Operator::I64Const { value: n as i64 },
                None => Operator::Other,
            },
        )
    } else if w == "F32Const"@ {
        Some(
            match index_behind(t, "Ieee32("@) {
                Some(bits) => Operator::F32Const { bits },
                None => Operator::Other,
            },
        )
    } else if w == "F64Const"@ {
        Some(
            match number_behind(t, "Ieee64("@, u64::MAX as nat) {
                Some(bits) => Operator::F64Const { bits: bits as u64 },
                None => Operator::Other,
            },
        )
    } else if w == "MemoryAtomicNotify"@ {
        Some(
            match memarg_in(t) {
                Some(memarg) => Operator::MemoryAtomicNotify { memarg },
                None => Operator::Other,
            },
        )
    } else if w == "MemoryAtomicWait32"@ {
        Some(
            match memarg_in(t) {
                Some(memarg) => Operator::MemoryAtomicWait32 { memarg },
                None => Operator::Other,
            },
        )
    } else if w == "MemoryAtomicWait64"@ {
        Some(
            match memarg_in(t) {
                Some(memarg) => Operator::MemoryAtomicWait64 { memarg },
                None => Operator::Other,
            },
        )
    } else {
        None
    }
}

/// Constants, and waiting on memory.
fn read_valued(w: &str, t: &Vec<char>) -> (r: Option<Operator>)
    ensures
        r == valued_op(w@, t@),
{
    if same(w, "I32Const") {
        Some(
            match find_signed(t, "value: ") {
                Some(n) => if n >= -0x8000_0000 && n <= 0x7fff_ffff {
                    Operator::I32Const { value: n as i32 }
                } else {
                    Operator::Other
                },
                None => Operator::Other,
            },
        )
    } else if same(w, "I64Const") {
        Some(
            match find_signed(t, "value: ") {
                Some(value) => Operator::I64Const { value },
                None => Operator::Other,
            },
        )
    } else if same(w, "F32Const") {
        Some(
            match find_index(t, "Ieee32(") {
                Some(bits) => Operator::F32Const { bits },
                None => Operator::Other,
            },
        )
    } else if same(w, "F64Const") {
        Some(
            match find_number(t, "Ieee64(", u64::MAX) {
                Some(bits) => Operator::F64Const { bits },
                None => Operator::Other,
            },
        )
    } else if same(w, "MemoryAtomicNotify") {
        Some(
            match read_memarg(t) {
                Some(memarg) => Operator::MemoryAtomicNotify { memarg },
                None => Operator::Other,
            },
        )
    } else if same(w, "MemoryAtomicWait32") {
        Some(
            match read_memarg(t) {
                Some(memarg) => Operator::MemoryAtomicWait32 { memarg },
                None => Operator::Other,
            },
        )
    } else if same(w, "MemoryAtomicWait64") {
        Some(
            match read_memarg(t) {
                Some(memarg) => Operator::MemoryAtomicWait64 { memarg },
                None => Operator::Other,
            },
        )
    } else {
        None
    }
}

/// The operators over numbers and lanes, and the memory accesses.
pub open spec fn numeric_op(w: Seq<char>, t: Seq<char>) -> Option<Operator> {
    if let Some((ty, op)) = int_named(w) {
        Some(Operator::Int { ty, op })
    } else if let Some((ty, op)) = float_named(w) {
        Some(Operator::Float { ty, op })
    } else if let Some(op) = convert_named(w) {
        Some(Operator::Convert { op })
    } else if let Some(op) = lane_named(w) {
        Some(Operator::Lane { op })
    } else if let Some(op) = extract_named(w) {
        Some(
            match lane_in(t) {
                Some(lane) => Operator::ExtractLane { op, lane },
                None => Operator::Other,
            },
        )
    } else if let Some(op) = replace_named(w) {
        Some(
            match lane_in(t) {
                Some(lane) => Operator::ReplaceLane { op, lane },
                None => Operator::Other,
            },
        )
    } else if let Some(op) = load_named(w) {
        Some(
            match memarg_in(t) {
                Some(memarg) => Operator::Load { op, memarg },
                None => Operator::Other,
            },
        )
    } else if let Some(op) = store_named(w) {
        Some(
            match memarg_in(t) {
                Some(memarg) => Operator::Store { op, memarg },
                None => Operator::Other,
            },
        )
    } else if let Some(op) = load_lane_named(w) {
        Some(
            match (memarg_in(t), lane_in(t)) {
                (Some(memarg), Some(lane)) => Operator::LoadLane { op, memarg, lane },
                _ => Operator::Other,
            },
        )
    } else if let Some(op) = store_lane_named(w) {
        Some(
            match (memarg_in(t), lane_in(t)) {
                (Some(memarg), Some(lane)) => Operator::StoreLane { op, memarg, lane },
                _ => Operator::Other,
            },
        )
    } else if let Some((width, op)) = rmw_named(w) {
        Some(
            match memarg_in(t) {
                Some(memarg) => Operator::AtomicRmw { width, op, memarg },
                None => Operator::Other,
            },
        )
    } else if let Some(width) = exchange_named(w) {
        Some(
            match memarg_in(t) {
                Some(memarg) => Operator::AtomicCompareExchange { width, memarg },
                None => Operator::Other,
            },
        )
    } else {
        None
    }
}

/// The operators over numbers and lanes, and the memory accesses.
fn read_numeric(w: &str, t: &Vec<char>) -> (r: Option<Operator>)
    ensures
        r == numeric_op(w@, t@),
{
    if let Some((ty, op)) = read_int(w) {
        return Some(Operator::Int { ty, op });
    }
    if let Some((ty, op)) = read_float(w) {
        return Some(Operator::Float { ty, op });
    }
    if let Some(op) = read_convert(w) {
        return Some(Operator::Convert { op });
    }
    if let Some(op) = read_lane(w) {
        return Some(Operator::Lane { op });
    }
    if let Some(op) = read_extract(w) {
        return Some(
            match read_lane_index(t) {
                Some(lane) => Operator::ExtractLane { op, lane },
                None => Operator::Other,
            },
        );
    }
    if let Some(op) = read_replace(w) {
        return Some(
            match read_lane_index(t) {
                Some(lane) => Operator::ReplaceLane { op, lane },
                None => Operator::Other,
            },
        );
    }
    if let Some(op) = read_load(w) {
        return Some(
            match read_memarg(t) {
                Some(memarg) => Operator::Load { op, memarg },
                None => Operator::Other,
            },
        );
    }
    if let Some(op) = read_store(w) {
        return Some(
            match read_memarg(t) {
                Some(memarg) => Operator::Store { op, memarg },
                None => Operator::Other,
            },
        );
    }
    if let Some(op) = read_load_lane(w) {
        return Some(
            match (read_memarg(t), read_lane_index(t)) {
                (Some(memarg), Some(lane)) => Operator::LoadLane { op, memarg, lane },
                _ => Operator::Other,
            },
        );
    }
    if let Some(op) = read_store_lane(w) {
        return Some(
            match (read_memarg(t), read_lane_index(t)) {
                (Some(memarg), Some(lane)) => Operator::StoreLane { op, memarg, lane },
                _ => Operator::Other,
            },
        );
    }
    if let Some((width, op)) = read_rmw(w) {
        return Some(
            match read_memarg(t) {
                Some(memarg) => Operator::AtomicRmw { width, op, memarg },
                None => Operator::Other,
            },
        );
    }
    if let Some(width) = read_exchange(w) {
        return Some(
            match read_memarg(t) {
                Some(memarg) => Operator::AtomicCompareExchange { width, memarg },
                None => Operator::Other,
            },
        );
    }
    None
}

/// The operator that is spelled `t`, where it needs no list; `None` where its name
/// is none of these.
pub open spec fn simple_op(w: Seq<char>, t: Seq<char>) -> Option<Operator> {
    if let Some(op) = plain_op(w, t) {
        Some(op)
    } else if let Some(op) = control_op(w, t) {
        Some(op)
    } else if let Some(op) = storage_op(w, t) {
        Some(op)
    } else if let Some(op) = object_op(w, t) {
        Some(op)
    } else if let Some(op) = typed_op(w, t) {
        Some(op)
    } else if let Some(op) = valued_op(w, t) {
        Some(op)
    } else {
        numeric_op(w, t)
    }
}

/// The operator that is spelled `t`, where it needs no list.
pub fn read_simple(w: &str, t: &Vec<char>) -> (r: Option<Operator>)
    ensures
        r == simple_op(w@, t@),
{
    if let Some(op) = read_plain(w, t) {
        return Some(op);
    }
    if let Some(op) = read_control(w, t) {
        return Some(op);
    }
    if let Some(op) = read_storage(w, t) {
        return Some(op);
    }
    if let Some(op) = read_object(w, t) {
        return Some(op);
    }
    if let Some(op) = read_typed(w, t) {
        return Some(op);
    }
    if let Some(op) = read_valued(w, t) {
        return Some(op);
    }
    read_numeric(w, t)
}

} // verus!
