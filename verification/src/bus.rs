//! The data bus: the memory, framebuffer and key-input state that
//! instruction execution reads and writes.

use crate::display;
use crate::kb;
use crate::ram;
use vstd::prelude::*;

verus! {

#[verifier::ext_equal]
pub ghost struct BusView {
    pub mem: Seq<u8>,
    pub fb: Seq<bool>,
    pub redraw: bool,
    pub keys: Seq<bool>,
    pub key_reg: u8,
}

pub struct DataBus {
    pub ram: ram::Ram,
    pub display: display::Display,
    pub keyboard: kb::Keyboard,
}

impl View for DataBus {
    type V = BusView;

    open spec fn view(&self) -> BusView {
        BusView {
            mem: self.ram@,
            fb: self.display@.fb,
            redraw: self.display@.redraw,
            keys: self.keyboard@.keys,
            key_reg: self.keyboard@.register,
        }
    }
}

impl DataBus {
    pub open spec fn wf(self) -> bool {
        self.ram.wf() && self.display.wf() && self.keyboard.wf()
    }

    pub fn new() -> (r: DataBus)
        ensures
            r.wf(),
            forall|a: int| 0 <= a < ram::MEM_SIZE ==> r@.mem[a] == 0u8,
            forall|p: int| 0 <= p < display::SCREEN_PIXELS ==> !r@.fb[p],
            forall|k: int| 0 <= k < kb::NUM_KEYS ==> !r@.keys[k],
            !r@.redraw,
            r@.key_reg == 0u8,
    {
        DataBus { ram: ram::Ram::new(), display: display::Display::new(), keyboard: kb::Keyboard::new() }
    }
}

} // verus!
