//! A sample plugin: a fixed name and a greeting printed on execution.

use vstd::prelude::*;
use crate::console::print_line;
use crate::interface::InstanceTable;
use crate::interface::NULL_HANDLE;
use crate::interface::Plugin;
use crate::interface::create_plugin_instance;

verus! {

pub struct HelloWorld;

impl Plugin for HelloWorld {
    fn name(&self) -> &'static str {
        "HelloWorld"
    }

    fn execute(&self) {
        print_line("Hello World");
    }
}

/// The module's creation entry point: boxes one `HelloWorld` into a fresh
/// instance owned by the table and returns its handle.
pub fn create_plugin(table: &mut InstanceTable) -> (h: u64)
    requires
        old(table).wf(),
        old(table).next_handle() < u64::MAX,
    ensures
        final(table).wf(),
        h != NULL_HANDLE,
        !old(table).live().contains(h),
        final(table).live() =~= old(table).live().insert(h),
        final(table).next_handle() == old(table).next_handle() + 1,
{
    create_plugin_instance(table, Box::new(HelloWorld))
}

} // verus!
