use scooter::ir::{
    Addr, BinInstr, CallInstr, CopyInstr, Instr, IrError, Label, Op, ParamInstr, RetInstr, UnInstr,
};

#[test]
fn binary_instruction_with_a_writable_destination() {
    let instr = BinInstr::new(Addr::Temp(2), Addr::Temp(0), Op::Plus, Addr::Const(1));
    assert_eq!(
        instr,
        Ok(BinInstr {
            label: None,
            da: Addr::Temp(2),
            la: Addr::Temp(0),
            op: Op::Plus,
            ra: Addr::Const(1)
        })
    );
    assert!(BinInstr::new(Addr::Name(0), Addr::Name(0), Op::Mult, Addr::Name(0)).is_ok());
}

#[test]
fn constant_destination_is_refused() {
    assert_eq!(
        BinInstr::new(Addr::Const(0), Addr::Temp(0), Op::Plus, Addr::Temp(1)),
        Err(IrError::InvalidDestination)
    );
    assert_eq!(CopyInstr::new(Addr::Const(3), Addr::Temp(0)), Err(IrError::InvalidDestination));
    assert_eq!(CallInstr::new(Addr::Const(0), Label(0), 2), Err(IrError::InvalidDestination));
}

#[test]
fn copy_call_and_return_constructors() {
    assert_eq!(
        CopyInstr::new(Addr::Name(1), Addr::Const(0)),
        Ok(CopyInstr { label: None, da: Addr::Name(1), ad: Addr::Const(0) })
    );
    assert_eq!(
        CallInstr::new(Addr::Temp(4), Label(2), 3),
        Ok(CallInstr { label: None, da: Addr::Temp(4), fl: Label(2), n: 3 })
    );
    assert_eq!(RetInstr::new(Addr::Const(5)), RetInstr { label: None, ad: Addr::Const(5) });
}

#[test]
fn writable_addresses() {
    assert!(Addr::Name(0).is_writable());
    assert!(Addr::Temp(0).is_writable());
    assert!(!Addr::Const(0).is_writable());
}

#[test]
fn destination_of_each_kind_of_instruction() {
    let bin = Instr::Binary(BinInstr {
        label: None,
        da: Addr::Temp(1),
        la: Addr::Temp(0),
        op: Op::Plus,
        ra: Addr::Temp(0),
    });
    let un = Instr::Unary(UnInstr { label: None, da: Addr::Temp(2), op: Op::Mult, ad: Addr::Temp(0) });
    let cop = Instr::Copy(CopyInstr { label: None, da: Addr::Name(3), ad: Addr::Temp(0) });
    let call = Instr::Call(CallInstr { label: None, da: Addr::Temp(4), fl: Label(0), n: 0 });
    let param = Instr::Param(ParamInstr { label: None, ad: Addr::Temp(0) });
    let ret = Instr::Return(RetInstr { label: None, ad: Addr::Temp(0) });
    assert_eq!(bin.da(), &Addr::Temp(1));
    assert_eq!(un.da(), &Addr::Temp(2));
    assert_eq!(cop.da(), &Addr::Name(3));
    assert_eq!(call.da(), &Addr::Temp(4));
    assert!(bin.has_da() && un.has_da() && cop.has_da() && call.has_da());
    assert!(!param.has_da());
    assert!(!ret.has_da());
}

#[test]
fn set_label_on_each_kind_of_instruction() {
    let mut instrs = vec![
        Instr::Binary(BinInstr {
            label: None,
            da: Addr::Temp(1),
            la: Addr::Temp(0),
            op: Op::Plus,
            ra: Addr::Temp(0),
        }),
        Instr::Unary(UnInstr { label: None, da: Addr::Temp(2), op: Op::Mult, ad: Addr::Temp(0) }),
        Instr::Copy(CopyInstr { label: None, da: Addr::Name(3), ad: Addr::Temp(0) }),
        Instr::Call(CallInstr { label: None, da: Addr::Temp(4), fl: Label(0), n: 0 }),
        Instr::Param(ParamInstr { label: None, ad: Addr::Temp(0) }),
        Instr::Return(RetInstr { label: Some(Label(1)), ad: Addr::Temp(0) }),
    ];
    for (i, instr) in instrs.iter_mut().enumerate() {
        let before = *instr;
        instr.set_label(Label(10 + i));
        assert_eq!(instr.label(), Some(Label(10 + i)));
        assert_eq!(instr.has_da(), before.has_da());
        if instr.has_da() {
            assert_eq!(instr.da(), before.da());
        }
    }
    assert_eq!(
        instrs[2],
        Instr::Copy(CopyInstr { label: Some(Label(12)), da: Addr::Name(3), ad: Addr::Temp(0) })
    );
}
