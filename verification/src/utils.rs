//! Demo threads and diagnostic helpers.

use vstd::prelude::*;
use vstd::string::StringExecFns;

use crate::data::{spec_env_lookup, ProcessData};
use crate::manager::ProcessManager;
use crate::memory::{page_at, BootFrameAllocator};
use crate::pid::{PidCounter, ProcessId, KERNEL_PID};
use crate::process::{spec_ascii_lower, spec_stack_bot};
use crate::proc::{ProgramStatus, STACK_DEF_PAGE};

verus! {

/// The boot banner.
pub fn get_ascii_header() -> (r: &'static str) {
    "\n__  __      __  _____            ____  _____\n\\ \\/ /___ _/ /_/ ___/___  ____  / __ \\/ ___/\n \\  / __ `/ __/\\__ \\/ _ \\/ __ \\/ / / /\\__ \\\n / / /_/ / /_ ___/ /  __/ / / / /_/ /___/ /\n/_/\\__,_/\\__//____/\\___/_/ /_/\\____//____/\n\n                                       v0.1.0"
}

/// Spawn one counting demo thread: its environment carries `id`, its name
/// is `#<id>_test`, and it starts at `entry`.
pub fn new_test_thread(
    entry: u64,
    id: &String,
    manager: &mut ProcessManager,
    counter: &mut PidCounter,
    frame_allocator: &mut BootFrameAllocator,
) -> (r: ProcessId)
    requires
        old(manager).wf(),
        old(counter).wf(),
        old(counter).next < u16::MAX,
        !old(manager).contains(old(counter).next),
        old(frame_allocator).wf(),
        old(frame_allocator).frames@.len() >= 2 + STACK_DEF_PAGE,
        forall|k: int| 0 <= k < STACK_DEF_PAGE
            ==> old(manager).proc_of(KERNEL_PID).inner.page_table.unwrap().map.spec_lookup(
                #[trigger] page_at(spec_stack_bot(old(counter).next), k),
            ) is None,
    ensures
        final(manager).wf(),
        r.0 == old(counter).next,
        final(counter).next == old(counter).next + 1,
        final(manager).contains(r.0),
        final(manager).ready_queue@ == old(manager).ready_queue@.push(r.0),
        ({
            let p = final(manager).proc_of(r.0);
            &&& p.inner.status is Ready
            &&& p.inner.name@ == spec_ascii_lower("#"@ + id@ + "_test"@)
            &&& p.inner.context.value().stack_frame.instruction_pointer == entry
            &&& p.inner.proc_data matches Some(d)
                && spec_env_lookup(d.env@, "id"@) == Some(id@)
        }),
{
    let mut proc_data = ProcessData::new();
    let key = "id".to_owned();
    proc_data.set_env(&key, id);
    let mut name = "#".to_owned();
    name.append(id.as_str());
    name.append("_test");
    manager.spawn_kernel_thread(entry, name, Some(proc_data), counter, frame_allocator)
}

/// Spawn the stack-growth demo thread, named `stack`, starting at `entry`.
/// Waiting for it to exit is the caller's poll loop over
/// [`ProcessManager::get_exit_code`], halting between checks.
pub fn new_stack_test_thread(
    entry: u64,
    manager: &mut ProcessManager,
    counter: &mut PidCounter,
    frame_allocator: &mut BootFrameAllocator,
) -> (r: ProcessId)
    requires
        old(manager).wf(),
        old(counter).wf(),
        old(counter).next < u16::MAX,
        !old(manager).contains(old(counter).next),
        old(frame_allocator).wf(),
        old(frame_allocator).frames@.len() >= 2 + STACK_DEF_PAGE,
        forall|k: int| 0 <= k < STACK_DEF_PAGE
            ==> old(manager).proc_of(KERNEL_PID).inner.page_table.unwrap().map.spec_lookup(
                #[trigger] page_at(spec_stack_bot(old(counter).next), k),
            ) is None,
    ensures
        final(manager).wf(),
        r.0 == old(counter).next,
        final(counter).next == old(counter).next + 1,
        final(manager).contains(r.0),
        final(manager).ready_queue@ == old(manager).ready_queue@.push(r.0),
        ({
            let p = final(manager).proc_of(r.0);
            &&& p.inner.status is Ready
            &&& p.inner.name@ == spec_ascii_lower("stack"@)
            &&& p.inner.context.value().stack_frame.instruction_pointer == entry
        }),
{
    let name = "stack".to_owned();
    manager.spawn_kernel_thread(entry, name, None, counter, frame_allocator)
}

/// The stack-growth workload: a table of `0x1000` slots, each written with
/// its own index. On the machine this lives in a stack array whose writes
/// fault into fresh stack pages; here the values themselves are verified.
pub fn huge_stack() -> (r: Vec<u64>)
    ensures
        r@.len() == 0x1000,
        forall|i: int| 0 <= i < 0x1000 ==> r@[i] == i,
{
    let mut stack: Vec<u64> = Vec::new();
    let mut idx: u64 = 0;
    while idx < 0x1000
        invariant
            idx <= 0x1000,
            stack@.len() == idx,
            forall|i: int| 0 <= i < idx ==> stack@[i] == i,
        decreases 0x1000 - idx,
    {
        stack.push(idx);
        idx = idx + 1;
    }
    stack
}

/// Run the stack-growth workload and hand back the exit code the thread
/// leaves with; the caller passes it to `process_exit`.
pub fn stack_test() -> (r: isize)
    ensures
        r == 0,
{
    let _stack = huge_stack();
    0
}

} // verus!
