use vstd::prelude::*;

use crate::memory::HWInput;
use vstd::string::StringSliceAdditionalSpecFns;

verus! {

/// The button bound to a host key, by the key's name: I, K, J, L for the directions, A and B,
/// Return for Start and Space for Select.
pub open spec fn key_button(name: Seq<u8>) -> Option<HWInput> {
    if name == seq![0x49u8] {
        Some(HWInput::ArrUp)
    } else if name == seq![0x4Bu8] {
        Some(HWInput::ArrDown)
    } else if name == seq![0x4Au8] {
        Some(HWInput::ArrLeft)
    } else if name == seq![0x4Cu8] {
        Some(HWInput::ArrRight)
    } else if name == seq![0x41u8] {
        Some(HWInput::BtnA)
    } else if name == seq![0x42u8] {
        Some(HWInput::BtnB)
    } else if name == seq![0x52u8, 0x65, 0x74, 0x75, 0x72, 0x6E] {
        Some(HWInput::BtnStart)
    } else if name == seq![0x53u8, 0x70, 0x61, 0x63, 0x65] {
        Some(HWInput::BtnSelect)
    } else {
        None
    }
}

/// The button bound to the key named `sdl_key`, if any.
pub fn get_btn(sdl_key: &str) -> (r: Option<HWInput>)
    ensures
        r == key_button(sdl_key.spec_bytes()),
{
    let b = sdl_key.as_bytes();
    if b.len() == 1 {
        let c = b[0];
        proof {
            assert(b@ =~= seq![c]);
        }
        if c == 0x49 {
            Some(HWInput::ArrUp)
        } else if c == 0x4B {
            Some(HWInput::ArrDown)
        } else if c == 0x4A {
            Some(HWInput::ArrLeft)
        } else if c == 0x4C {
            Some(HWInput::ArrRight)
        } else if c == 0x41 {
            Some(HWInput::BtnA)
        } else if c == 0x42 {
            Some(HWInput::BtnB)
        } else {
            None
        }
    } else if b.len() == 6 && b[0] == 0x52 && b[1] == 0x65 && b[2] == 0x74 && b[3] == 0x75 && b[4]
        == 0x72 && b[5] == 0x6E {
        proof {
            assert(b@ =~= seq![0x52u8, 0x65, 0x74, 0x75, 0x72, 0x6E]);
        }
        Some(HWInput::BtnStart)
    } else if b.len() == 5 && b[0] == 0x53 && b[1] == 0x70 && b[2] == 0x61 && b[3] == 0x63 && b[4]
        == 0x65 {
        proof {
            assert(b@ =~= seq![0x53u8, 0x70, 0x61, 0x63, 0x65]);
        }
        Some(HWInput::BtnSelect)
    } else {
        proof {
            if b@.len() == 6 {
                assert(b@ != seq![0x52u8, 0x65, 0x74, 0x75, 0x72, 0x6E] || (b@[0] == 0x52 && b@[1]
                    == 0x65 && b@[2] == 0x74 && b@[3] == 0x75 && b@[4] == 0x72 && b@[5] == 0x6E));
            }
            if b@.len() == 5 {
                assert(b@ != seq![0x53u8, 0x70, 0x61, 0x63, 0x65] || (b@[0] == 0x53 && b@[1]
                    == 0x70 && b@[2] == 0x61 && b@[3] == 0x63 && b@[4] == 0x65));
            }
        }
        None
    }
}

} // verus!
