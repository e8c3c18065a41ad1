//! The static-field and call instruction set: the static read of the one
//! well-known output stream, the constant push, the println-style virtual
//! call, the void return, and the unconditional jump.
use vstd::prelude::*;

use crate::jvm::{HandlerKind, Instruction, InstructionModule, InstructionView};

verus! {

/// The provider of the static-field and call instructions.
pub struct StaticModule;

impl InstructionModule for StaticModule {
    open spec fn instructions_view(&self) -> Seq<(u8, InstructionView)> {
        seq![
            (178u8, InstructionView { name: "get_static"@, handler: HandlerKind::GetStatic }),
            (18u8, InstructionView { name: "ldc"@, handler: HandlerKind::Ldc }),
            (
                182u8,
                InstructionView { name: "invokevirtual"@, handler: HandlerKind::InvokeVirtual },
            ),
            (177u8, InstructionView { name: "return (void)"@, handler: HandlerKind::ReturnVoid }),
            (167u8, InstructionView { name: "goto"@, handler: HandlerKind::Goto }),
        ]
    }

    fn get_instructions(&self) -> (r: Vec<(u8, Instruction)>) {
        let mut r: Vec<(u8, Instruction)> = Vec::new();
        r.push((178, Instruction::new("get_static".to_owned(), HandlerKind::GetStatic)));
        r.push((18, Instruction::new("ldc".to_owned(), HandlerKind::Ldc)));
        r.push((182, Instruction::new("invokevirtual".to_owned(), HandlerKind::InvokeVirtual)));
        r.push((177, Instruction::new("return (void)".to_owned(), HandlerKind::ReturnVoid)));
        r.push((167, Instruction::new("goto".to_owned(), HandlerKind::Goto)));
        proof {
            assert(r@.map_values(|p: (u8, Instruction)| (p.0, p.1@)) =~= self.instructions_view());
        }
        r
    }
}

} // verus!
