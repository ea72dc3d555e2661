//! The fixed texts of the emitted code spell out tokens, and close every delimiter that they open.

use crate::expansion::{FROM_U64, INTO_U64, NO_WIDTH, VALUE_TYPE, WIDTH, WIDTH_AS_USIZE};
use vstd::prelude::*;

verus! {

proof fn lemma_widths_1()
    ensures
        crate::tokens::is_code_text("<"@),
{
    reveal_with_fuel(crate::spelling::reads, 2);
    reveal_strlit("<");
    crate::spelling::lemma_reads("<"@);
}

proof fn lemma_widths_2()
    ensures
        crate::tokens::is_code_text(WIDTH_AS_USIZE@),
{
    reveal_with_fuel(crate::spelling::reads, 63);
    reveal_strlit("as :: bit_field :: BitFieldSpecifier > :: FIELD_WIDTH as usize");
    crate::spelling::lemma_reads(WIDTH_AS_USIZE@);
}

proof fn lemma_widths_3()
    ensures
        crate::tokens::is_code_text("+"@),
        crate::tokens::is_code_text(","@),
{
    reveal_with_fuel(crate::spelling::reads, 2);
    reveal_strlit("+");
    crate::spelling::lemma_reads("+"@);
    reveal_strlit(",");
    crate::spelling::lemma_reads(","@);
}

proof fn lemma_widths_4()
    ensures
        crate::tokens::is_code_text(NO_WIDTH@),
{
    reveal_with_fuel(crate::spelling::reads, 91);
    reveal_strlit("< :: bit_field :: BitField0 as :: bit_field :: BitFieldSpecifier > :: FIELD_WIDTH as usize");
    crate::spelling::lemma_reads(NO_WIDTH@);
}

/// The texts of the widths and offsets of fields.
pub proof fn lemma_texts_of_widths()
    ensures
        crate::tokens::is_code_text("<"@),
        crate::tokens::is_code_text(WIDTH_AS_USIZE@),
        crate::tokens::is_code_text("+"@),
        crate::tokens::is_code_text(","@),
        crate::tokens::is_code_text(NO_WIDTH@),
{
    lemma_widths_1();
    lemma_widths_2();
    lemma_widths_3();
    lemma_widths_4();
}

proof fn lemma_struct_1()
    ensures
        crate::tokens::is_code_text("u8 ;"@),
        crate::tokens::is_code_text("0 ;"@),
        crate::tokens::is_code_text("/ 8"@),
        crate::tokens::is_code_text("% 8"@),
        crate::tokens::is_code_text("data :"@),
        crate::tokens::is_code_text(","@),
        crate::tokens::is_code_text("pub fn new ( ) ->"@),
{
    reveal_with_fuel(crate::spelling::reads, 18);
    reveal_strlit("u8 ;");
    crate::spelling::lemma_reads("u8 ;"@);
    reveal_strlit("0 ;");
    crate::spelling::lemma_reads("0 ;"@);
    reveal_strlit("/ 8");
    crate::spelling::lemma_reads("/ 8"@);
    reveal_strlit("% 8");
    crate::spelling::lemma_reads("% 8"@);
    reveal_strlit("data :");
    crate::spelling::lemma_reads("data :"@);
    reveal_strlit(",");
    crate::spelling::lemma_reads(","@);
    reveal_strlit("pub fn new ( ) ->");
    crate::spelling::lemma_reads("pub fn new ( ) ->"@);
}

proof fn lemma_struct_2()
    ensures
        crate::tokens::is_code_text("let _ : :: bit_field :: Check <"@),
        crate::tokens::is_code_text("> ;"@),
{
    reveal_with_fuel(crate::spelling::reads, 32);
    reveal_strlit("let _ : :: bit_field :: Check <");
    crate::spelling::lemma_reads("let _ : :: bit_field :: Check <"@);
    reveal_strlit("> ;");
    crate::spelling::lemma_reads("> ;"@);
}

proof fn lemma_struct_3()
    ensures
        crate::tokens::is_code_text("# [ repr ( C ) ]"@),
        crate::tokens::is_code_text("struct"@),
        crate::tokens::is_code_text("impl"@),
{
    reveal_with_fuel(crate::spelling::reads, 17);
    reveal_strlit("# [ repr ( C ) ]");
    crate::spelling::lemma_reads("# [ repr ( C ) ]"@);
    reveal_strlit("struct");
    crate::spelling::lemma_reads("struct"@);
    reveal_strlit("impl");
    crate::spelling::lemma_reads("impl"@);
}

/// The texts of the struct and its constructor.
pub proof fn lemma_texts_of_struct()
    ensures
        crate::tokens::is_code_text("u8 ;"@),
        crate::tokens::is_code_text("0 ;"@),
        crate::tokens::is_code_text("/ 8"@),
        crate::tokens::is_code_text("% 8"@),
        crate::tokens::is_code_text("data :"@),
        crate::tokens::is_code_text(","@),
        crate::tokens::is_code_text("pub fn new ( ) ->"@),
        crate::tokens::is_code_text("let _ : :: bit_field :: Check <"@),
        crate::tokens::is_code_text("> ;"@),
        crate::tokens::is_code_text("# [ repr ( C ) ]"@),
        crate::tokens::is_code_text("struct"@),
        crate::tokens::is_code_text("impl"@),
{
    lemma_struct_1();
    lemma_struct_2();
    lemma_struct_3();
}

proof fn lemma_checks_1()
    ensures
        crate::tokens::is_code_text("# [ inline ]"@),
{
    reveal_with_fuel(crate::spelling::reads, 13);
    reveal_strlit("# [ inline ]");
    crate::spelling::lemma_reads("# [ inline ]"@);
}

proof fn lemma_checks_2()
    ensures
        crate::tokens::is_code_text("fn check_access ( & self , offset : usize , width : u8 )"@),
{
    reveal_with_fuel(crate::spelling::reads, 57);
    reveal_strlit("fn check_access ( & self , offset : usize , width : u8 )");
    crate::spelling::lemma_reads("fn check_access ( & self , offset : usize , width : u8 )"@);
}

proof fn lemma_checks_3()
    ensures
        crate::tokens::is_code_text("debug_assert ! ( width <= 64 ) ;"@),
{
    reveal_with_fuel(crate::spelling::reads, 33);
    reveal_strlit("debug_assert ! ( width <= 64 ) ;");
    crate::spelling::lemma_reads("debug_assert ! ( width <= 64 ) ;"@);
}

proof fn lemma_checks_4()
    ensures
        crate::tokens::is_code_text("debug_assert ! ( offset / 8 < self . data . len ( ) ) ;"@),
{
    reveal_with_fuel(crate::spelling::reads, 56);
    reveal_strlit("debug_assert ! ( offset / 8 < self . data . len ( ) ) ;");
    crate::spelling::lemma_reads("debug_assert ! ( offset / 8 < self . data . len ( ) ) ;"@);
}

proof fn lemma_checks_5()
    ensures
        crate::tokens::is_code_text("debug_assert ! ( ( offset + ( width as usize ) ) <= ( self . data . len ( ) * 8 ) ) ;"@),
{
    reveal_with_fuel(crate::spelling::reads, 86);
    reveal_strlit("debug_assert ! ( ( offset + ( width as usize ) ) <= ( self . data . len ( ) * 8 ) ) ;");
    crate::spelling::lemma_reads("debug_assert ! ( ( offset + ( width as usize ) ) <= ( self . data . len ( ) * 8 ) ) ;"@);
}

/// The texts of the method that checks accesses.
pub proof fn lemma_texts_of_checks()
    ensures
        crate::tokens::is_code_text("# [ inline ]"@),
        crate::tokens::is_code_text("fn check_access ( & self , offset : usize , width : u8 )"@),
        crate::tokens::is_code_text("debug_assert ! ( width <= 64 ) ;"@),
        crate::tokens::is_code_text("debug_assert ! ( offset / 8 < self . data . len ( ) ) ;"@),
        crate::tokens::is_code_text("debug_assert ! ( ( offset + ( width as usize ) ) <= ( self . data . len ( ) * 8 ) ) ;"@),
{
    lemma_checks_1();
    lemma_checks_2();
    lemma_checks_3();
    lemma_checks_4();
    lemma_checks_5();
}

proof fn lemma_bit_methods_1()
    ensures
        crate::tokens::is_code_text("# [ inline ]"@),
{
    reveal_with_fuel(crate::spelling::reads, 13);
    reveal_strlit("# [ inline ]");
    crate::spelling::lemma_reads("# [ inline ]"@);
}

proof fn lemma_bit_methods_2()
    ensures
        crate::tokens::is_code_text("pub fn get_bit ( & self , offset : usize ) -> bool"@),
{
    reveal_with_fuel(crate::spelling::reads, 51);
    reveal_strlit("pub fn get_bit ( & self , offset : usize ) -> bool");
    crate::spelling::lemma_reads("pub fn get_bit ( & self , offset : usize ) -> bool"@);
}

proof fn lemma_bit_methods_3()
    ensures
        crate::tokens::is_code_text("pub fn set_bit ( & mut self , offset : usize , val : bool )"@),
{
    reveal_with_fuel(crate::spelling::reads, 60);
    reveal_strlit("pub fn set_bit ( & mut self , offset : usize , val : bool )");
    crate::spelling::lemma_reads("pub fn set_bit ( & mut self , offset : usize , val : bool )"@);
}

proof fn lemma_bit_methods_4()
    ensures
        crate::tokens::is_code_text("self . check_access ( offset , 1 ) ;"@),
{
    reveal_with_fuel(crate::spelling::reads, 37);
    reveal_strlit("self . check_access ( offset , 1 ) ;");
    crate::spelling::lemma_reads("self . check_access ( offset , 1 ) ;"@);
}

proof fn lemma_bit_methods_5()
    ensures
        crate::tokens::is_code_text("let byte_index = offset / 8 ;"@),
{
    reveal_with_fuel(crate::spelling::reads, 30);
    reveal_strlit("let byte_index = offset / 8 ;");
    crate::spelling::lemma_reads("let byte_index = offset / 8 ;"@);
}

proof fn lemma_bit_methods_6()
    ensures
        crate::tokens::is_code_text("let bit_offset = offset % 8 ;"@),
{
    reveal_with_fuel(crate::spelling::reads, 30);
    reveal_strlit("let bit_offset = offset % 8 ;");
    crate::spelling::lemma_reads("let bit_offset = offset % 8 ;"@);
}

proof fn lemma_bit_methods_7()
    ensures
        crate::tokens::is_code_text("let byte = self . data [ byte_index ] ;"@),
{
    reveal_with_fuel(crate::spelling::reads, 40);
    reveal_strlit("let byte = self . data [ byte_index ] ;");
    crate::spelling::lemma_reads("let byte = self . data [ byte_index ] ;"@);
}

proof fn lemma_bit_methods_8()
    ensures
        crate::tokens::is_code_text("let byte = & mut self . data [ byte_index ] ;"@),
{
    reveal_with_fuel(crate::spelling::reads, 46);
    reveal_strlit("let byte = & mut self . data [ byte_index ] ;");
    crate::spelling::lemma_reads("let byte = & mut self . data [ byte_index ] ;"@);
}

proof fn lemma_bit_methods_9()
    ensures
        crate::tokens::is_code_text("let mask = 1 << bit_offset ;"@),
{
    reveal_with_fuel(crate::spelling::reads, 29);
    reveal_strlit("let mask = 1 << bit_offset ;");
    crate::spelling::lemma_reads("let mask = 1 << bit_offset ;"@);
}

proof fn lemma_bit_methods_10()
    ensures
        crate::tokens::is_code_text("byte & mask == mask"@),
        crate::tokens::is_code_text("if val"@),
        crate::tokens::is_code_text("* byte |= mask ;"@),
        crate::tokens::is_code_text("else"@),
{
    reveal_with_fuel(crate::spelling::reads, 20);
    reveal_strlit("byte & mask == mask");
    crate::spelling::lemma_reads("byte & mask == mask"@);
    reveal_strlit("if val");
    crate::spelling::lemma_reads("if val"@);
    reveal_strlit("* byte |= mask ;");
    crate::spelling::lemma_reads("* byte |= mask ;"@);
    reveal_strlit("else");
    crate::spelling::lemma_reads("else"@);
}

proof fn lemma_bit_methods_11()
    ensures
        crate::tokens::is_code_text("* byte &= ! mask ;"@),
{
    reveal_with_fuel(crate::spelling::reads, 19);
    reveal_strlit("* byte &= ! mask ;");
    crate::spelling::lemma_reads("* byte &= ! mask ;"@);
}

/// The texts of the methods for single bits.
pub proof fn lemma_texts_of_bit_methods()
    ensures
        crate::tokens::is_code_text("# [ inline ]"@),
        crate::tokens::is_code_text("pub fn get_bit ( & self , offset : usize ) -> bool"@),
        crate::tokens::is_code_text("pub fn set_bit ( & mut self , offset : usize , val : bool )"@),
        crate::tokens::is_code_text("self . check_access ( offset , 1 ) ;"@),
        crate::tokens::is_code_text("let byte_index = offset / 8 ;"@),
        crate::tokens::is_code_text("let bit_offset = offset % 8 ;"@),
        crate::tokens::is_code_text("let byte = self . data [ byte_index ] ;"@),
        crate::tokens::is_code_text("let byte = & mut self . data [ byte_index ] ;"@),
        crate::tokens::is_code_text("let mask = 1 << bit_offset ;"@),
        crate::tokens::is_code_text("byte & mask == mask"@),
        crate::tokens::is_code_text("if val"@),
        crate::tokens::is_code_text("* byte |= mask ;"@),
        crate::tokens::is_code_text("else"@),
        crate::tokens::is_code_text("* byte &= ! mask ;"@),
{
    lemma_bit_methods_1();
    lemma_bit_methods_2();
    lemma_bit_methods_3();
    lemma_bit_methods_4();
    lemma_bit_methods_5();
    lemma_bit_methods_6();
    lemma_bit_methods_7();
    lemma_bit_methods_8();
    lemma_bit_methods_9();
    lemma_bit_methods_10();
    lemma_bit_methods_11();
}

proof fn lemma_number_methods_1()
    ensures
        crate::tokens::is_code_text("# [ inline ]"@),
{
    reveal_with_fuel(crate::spelling::reads, 13);
    reveal_strlit("# [ inline ]");
    crate::spelling::lemma_reads("# [ inline ]"@);
}

proof fn lemma_number_methods_2()
    ensures
        crate::tokens::is_code_text("pub fn get ( & self , offset : usize , width : u8 ) -> u64"@),
{
    reveal_with_fuel(crate::spelling::reads, 59);
    reveal_strlit("pub fn get ( & self , offset : usize , width : u8 ) -> u64");
    crate::spelling::lemma_reads("pub fn get ( & self , offset : usize , width : u8 ) -> u64"@);
}

proof fn lemma_number_methods_3()
    ensures
        crate::tokens::is_code_text("pub fn set ( & mut self , offset : usize , width : u8 , val : u64 )"@),
{
    reveal_with_fuel(crate::spelling::reads, 68);
    reveal_strlit("pub fn set ( & mut self , offset : usize , width : u8 , val : u64 )");
    crate::spelling::lemma_reads("pub fn set ( & mut self , offset : usize , width : u8 , val : u64 )"@);
}

proof fn lemma_number_methods_4()
    ensures
        crate::tokens::is_code_text("self . check_access ( offset , width ) ;"@),
{
    reveal_with_fuel(crate::spelling::reads, 41);
    reveal_strlit("self . check_access ( offset , width ) ;");
    crate::spelling::lemma_reads("self . check_access ( offset , width ) ;"@);
}

proof fn lemma_number_methods_5()
    ensures
        crate::tokens::is_code_text("let mut val = 0 ;"@),
{
    reveal_with_fuel(crate::spelling::reads, 18);
    reveal_strlit("let mut val = 0 ;");
    crate::spelling::lemma_reads("let mut val = 0 ;"@);
}

proof fn lemma_number_methods_6()
    ensures
        crate::tokens::is_code_text("for i in 0 .. ( width as usize )"@),
{
    reveal_with_fuel(crate::spelling::reads, 33);
    reveal_strlit("for i in 0 .. ( width as usize )");
    crate::spelling::lemma_reads("for i in 0 .. ( width as usize )"@);
}

proof fn lemma_number_methods_7()
    ensures
        crate::tokens::is_code_text("if self . get_bit ( i + offset )"@),
{
    reveal_with_fuel(crate::spelling::reads, 33);
    reveal_strlit("if self . get_bit ( i + offset )");
    crate::spelling::lemma_reads("if self . get_bit ( i + offset )"@);
}

proof fn lemma_number_methods_8()
    ensures
        crate::tokens::is_code_text("val |= 1 << i ;"@),
        crate::tokens::is_code_text("val"@),
        crate::tokens::is_code_text("let mask = 1 << i ;"@),
{
    reveal_with_fuel(crate::spelling::reads, 20);
    reveal_strlit("val |= 1 << i ;");
    crate::spelling::lemma_reads("val |= 1 << i ;"@);
    reveal_strlit("val");
    crate::spelling::lemma_reads("val"@);
    reveal_strlit("let mask = 1 << i ;");
    crate::spelling::lemma_reads("let mask = 1 << i ;"@);
}

proof fn lemma_number_methods_9()
    ensures
        crate::tokens::is_code_text("let val_bit_is_set = val & mask == mask ;"@),
{
    reveal_with_fuel(crate::spelling::reads, 42);
    reveal_strlit("let val_bit_is_set = val & mask == mask ;");
    crate::spelling::lemma_reads("let val_bit_is_set = val & mask == mask ;"@);
}

proof fn lemma_number_methods_10()
    ensures
        crate::tokens::is_code_text("self . set_bit ( i + offset , val_bit_is_set ) ;"@),
{
    reveal_with_fuel(crate::spelling::reads, 49);
    reveal_strlit("self . set_bit ( i + offset , val_bit_is_set ) ;");
    crate::spelling::lemma_reads("self . set_bit ( i + offset , val_bit_is_set ) ;"@);
}

/// The texts of the methods for numbers.
pub proof fn lemma_texts_of_number_methods()
    ensures
        crate::tokens::is_code_text("# [ inline ]"@),
        crate::tokens::is_code_text("pub fn get ( & self , offset : usize , width : u8 ) -> u64"@),
        crate::tokens::is_code_text("pub fn set ( & mut self , offset : usize , width : u8 , val : u64 )"@),
        crate::tokens::is_code_text("self . check_access ( offset , width ) ;"@),
        crate::tokens::is_code_text("let mut val = 0 ;"@),
        crate::tokens::is_code_text("for i in 0 .. ( width as usize )"@),
        crate::tokens::is_code_text("if self . get_bit ( i + offset )"@),
        crate::tokens::is_code_text("val |= 1 << i ;"@),
        crate::tokens::is_code_text("val"@),
        crate::tokens::is_code_text("let mask = 1 << i ;"@),
        crate::tokens::is_code_text("let val_bit_is_set = val & mask == mask ;"@),
        crate::tokens::is_code_text("self . set_bit ( i + offset , val_bit_is_set ) ;"@),
{
    lemma_number_methods_1();
    lemma_number_methods_2();
    lemma_number_methods_3();
    lemma_number_methods_4();
    lemma_number_methods_5();
    lemma_number_methods_6();
    lemma_number_methods_7();
    lemma_number_methods_8();
    lemma_number_methods_9();
    lemma_number_methods_10();
}

proof fn lemma_accessors_1()
    ensures
        crate::tokens::is_code_text("pub fn"@),
        crate::tokens::is_code_text("( & self ) -> <"@),
{
    reveal_with_fuel(crate::spelling::reads, 16);
    reveal_strlit("pub fn");
    crate::spelling::lemma_reads("pub fn"@);
    reveal_strlit("( & self ) -> <");
    crate::spelling::lemma_reads("( & self ) -> <"@);
}

proof fn lemma_accessors_2()
    ensures
        crate::tokens::is_code_text(VALUE_TYPE@),
{
    reveal_with_fuel(crate::spelling::reads, 59);
    reveal_strlit("as :: bit_field :: BitFieldSpecifier > :: DefaultFieldType");
    crate::spelling::lemma_reads(VALUE_TYPE@);
}

proof fn lemma_accessors_3()
    ensures
        crate::tokens::is_code_text("let offset ="@),
        crate::tokens::is_code_text("; let val = self . get"@),
        crate::tokens::is_code_text("offset , <"@),
{
    reveal_with_fuel(crate::spelling::reads, 23);
    reveal_strlit("let offset =");
    crate::spelling::lemma_reads("let offset ="@);
    reveal_strlit("; let val = self . get");
    crate::spelling::lemma_reads("; let val = self . get"@);
    reveal_strlit("offset , <");
    crate::spelling::lemma_reads("offset , <"@);
}

proof fn lemma_accessors_4()
    ensures
        crate::tokens::is_code_text(WIDTH@),
{
    reveal_with_fuel(crate::spelling::reads, 54);
    reveal_strlit("as :: bit_field :: BitFieldSpecifier > :: FIELD_WIDTH");
    crate::spelling::lemma_reads(WIDTH@);
}

proof fn lemma_accessors_5()
    ensures
        crate::tokens::is_code_text("; <"@),
{
    reveal_with_fuel(crate::spelling::reads, 4);
    reveal_strlit("; <");
    crate::spelling::lemma_reads("; <"@);
}

proof fn lemma_accessors_6()
    ensures
        crate::tokens::is_code_text(FROM_U64@),
{
    reveal_with_fuel(crate::spelling::reads, 51);
    reveal_strlit("as :: bit_field :: BitFieldSpecifier > :: from_u64");
    crate::spelling::lemma_reads(FROM_U64@);
}

proof fn lemma_accessors_7()
    ensures
        crate::tokens::is_code_text("( val )"@),
        crate::tokens::is_code_text("> ( )"@),
        crate::tokens::is_code_text("& mut self , val : <"@),
        crate::tokens::is_code_text("let val = <"@),
{
    reveal_with_fuel(crate::spelling::reads, 21);
    reveal_strlit("( val )");
    crate::spelling::lemma_reads("( val )"@);
    reveal_strlit("> ( )");
    crate::spelling::lemma_reads("> ( )"@);
    reveal_strlit("& mut self , val : <");
    crate::spelling::lemma_reads("& mut self , val : <"@);
    reveal_strlit("let val = <");
    crate::spelling::lemma_reads("let val = <"@);
}

proof fn lemma_accessors_8()
    ensures
        crate::tokens::is_code_text(INTO_U64@),
{
    reveal_with_fuel(crate::spelling::reads, 51);
    reveal_strlit("as :: bit_field :: BitFieldSpecifier > :: into_u64");
    crate::spelling::lemma_reads(INTO_U64@);
}

proof fn lemma_accessors_9()
    ensures
        crate::tokens::is_code_text("( val ) ; debug_assert !"@),
{
    reveal_with_fuel(crate::spelling::reads, 25);
    reveal_strlit("( val ) ; debug_assert !");
    crate::spelling::lemma_reads("( val ) ; debug_assert !"@);
}

proof fn lemma_accessors_10()
    ensures
        crate::tokens::is_code_text("val <= :: bit_field :: max :: <"@),
        crate::tokens::is_code_text("; let offset ="@),
{
    reveal_with_fuel(crate::spelling::reads, 32);
    reveal_strlit("val <= :: bit_field :: max :: <");
    crate::spelling::lemma_reads("val <= :: bit_field :: max :: <"@);
    reveal_strlit("; let offset =");
    crate::spelling::lemma_reads("; let offset ="@);
}

proof fn lemma_accessors_11()
    ensures
        crate::tokens::is_code_text("; self . set"@),
        crate::tokens::is_code_text(", val"@),
{
    reveal_with_fuel(crate::spelling::reads, 13);
    reveal_strlit("; self . set");
    crate::spelling::lemma_reads("; self . set"@);
    reveal_strlit(", val");
    crate::spelling::lemma_reads(", val"@);
}

/// The texts of the methods for fields.
pub proof fn lemma_texts_of_accessors()
    ensures
        crate::tokens::is_code_text("pub fn"@),
        crate::tokens::is_code_text("( & self ) -> <"@),
        crate::tokens::is_code_text(VALUE_TYPE@),
        crate::tokens::is_code_text("let offset ="@),
        crate::tokens::is_code_text("; let val = self . get"@),
        crate::tokens::is_code_text("offset , <"@),
        crate::tokens::is_code_text(WIDTH@),
        crate::tokens::is_code_text("; <"@),
        crate::tokens::is_code_text(FROM_U64@),
        crate::tokens::is_code_text("( val )"@),
        crate::tokens::is_code_text("> ( )"@),
        crate::tokens::is_code_text("& mut self , val : <"@),
        crate::tokens::is_code_text("let val = <"@),
        crate::tokens::is_code_text(INTO_U64@),
        crate::tokens::is_code_text("( val ) ; debug_assert !"@),
        crate::tokens::is_code_text("val <= :: bit_field :: max :: <"@),
        crate::tokens::is_code_text("; let offset ="@),
        crate::tokens::is_code_text("; self . set"@),
        crate::tokens::is_code_text(", val"@),
{
    lemma_accessors_1();
    lemma_accessors_2();
    lemma_accessors_3();
    lemma_accessors_4();
    lemma_accessors_5();
    lemma_accessors_6();
    lemma_accessors_7();
    lemma_accessors_8();
    lemma_accessors_9();
    lemma_accessors_10();
    lemma_accessors_11();
}

proof fn lemma_debug_1()
    ensures
        crate::tokens::is_code_text(". field"@),
        crate::tokens::is_code_text("impl std :: fmt :: Debug for"@),
{
    reveal_with_fuel(crate::spelling::reads, 29);
    reveal_strlit(". field");
    crate::spelling::lemma_reads(". field"@);
    reveal_strlit("impl std :: fmt :: Debug for");
    crate::spelling::lemma_reads("impl std :: fmt :: Debug for"@);
}

proof fn lemma_debug_2()
    ensures
        crate::tokens::is_code_text("fn fmt ( & self , f : & mut std :: fmt :: Formatter ) -> std :: fmt :: Result"@),
{
    reveal_with_fuel(crate::spelling::reads, 78);
    reveal_strlit("fn fmt ( & self , f : & mut std :: fmt :: Formatter ) -> std :: fmt :: Result");
    crate::spelling::lemma_reads("fn fmt ( & self , f : & mut std :: fmt :: Formatter ) -> std :: fmt :: Result"@);
}

proof fn lemma_debug_3()
    ensures
        crate::tokens::is_code_text("f . debug_struct"@),
        crate::tokens::is_code_text(". finish ( )"@),
        crate::tokens::is_code_text(", & self ."@),
        crate::tokens::is_code_text("( )"@),
{
    reveal_with_fuel(crate::spelling::reads, 17);
    reveal_strlit("f . debug_struct");
    crate::spelling::lemma_reads("f . debug_struct"@);
    reveal_strlit(". finish ( )");
    crate::spelling::lemma_reads(". finish ( )"@);
    reveal_strlit(", & self .");
    crate::spelling::lemma_reads(", & self ."@);
    reveal_strlit("( )");
    crate::spelling::lemma_reads("( )"@);
}

/// The texts of the debugging output.
pub proof fn lemma_texts_of_debug()
    ensures
        crate::tokens::is_code_text(". field"@),
        crate::tokens::is_code_text("impl std :: fmt :: Debug for"@),
        crate::tokens::is_code_text("fn fmt ( & self , f : & mut std :: fmt :: Formatter ) -> std :: fmt :: Result"@),
        crate::tokens::is_code_text("f . debug_struct"@),
        crate::tokens::is_code_text(". finish ( )"@),
        crate::tokens::is_code_text(", & self ."@),
        crate::tokens::is_code_text("( )"@),
{
    lemma_debug_1();
    lemma_debug_2();
    lemma_debug_3();
}

proof fn lemma_layout_tests_1()
    ensures
        crate::tokens::is_code_text("# [ test ] fn test_total_size ( )"@),
{
    reveal_with_fuel(crate::spelling::reads, 34);
    reveal_strlit("# [ test ] fn test_total_size ( )");
    crate::spelling::lemma_reads("# [ test ] fn test_total_size ( )"@);
}

proof fn lemma_layout_tests_2()
    ensures
        crate::tokens::is_code_text("let total_size ="@),
{
    reveal_with_fuel(crate::spelling::reads, 17);
    reveal_strlit("let total_size =");
    crate::spelling::lemma_reads("let total_size ="@);
}

proof fn lemma_layout_tests_3()
    ensures
        crate::tokens::is_code_text("; assert_eq ! ( total_size % 8 , 0 ) ;"@),
{
    reveal_with_fuel(crate::spelling::reads, 39);
    reveal_strlit("; assert_eq ! ( total_size % 8 , 0 ) ;");
    crate::spelling::lemma_reads("; assert_eq ! ( total_size % 8 , 0 ) ;"@);
}

proof fn lemma_layout_tests_4()
    ensures
        crate::tokens::is_code_text("# [ test ] fn test_bits_boundary ( )"@),
{
    reveal_with_fuel(crate::spelling::reads, 37);
    reveal_strlit("# [ test ] fn test_bits_boundary ( )");
    crate::spelling::lemma_reads("# [ test ] fn test_bits_boundary ( )"@);
}

proof fn lemma_layout_tests_5()
    ensures
        crate::tokens::is_code_text("let fields_sizes = vec !"@),
        crate::tokens::is_code_text("; let mut sum ="@),
{
    reveal_with_fuel(crate::spelling::reads, 25);
    reveal_strlit("let fields_sizes = vec !");
    crate::spelling::lemma_reads("let fields_sizes = vec !"@);
    reveal_strlit("; let mut sum =");
    crate::spelling::lemma_reads("; let mut sum ="@);
}

proof fn lemma_layout_tests_6()
    ensures
        crate::tokens::is_code_text("; for s in fields_sizes"@),
        crate::tokens::is_code_text("if sum % 64 == 0"@),
{
    reveal_with_fuel(crate::spelling::reads, 24);
    reveal_strlit("; for s in fields_sizes");
    crate::spelling::lemma_reads("; for s in fields_sizes"@);
    reveal_strlit("if sum % 64 == 0");
    crate::spelling::lemma_reads("if sum % 64 == 0"@);
}

proof fn lemma_layout_tests_7()
    ensures
        crate::tokens::is_code_text("assert ! ( s <= 64 ) ;"@),
        crate::tokens::is_code_text("else"@),
{
    reveal_with_fuel(crate::spelling::reads, 23);
    reveal_strlit("assert ! ( s <= 64 ) ;");
    crate::spelling::lemma_reads("assert ! ( s <= 64 ) ;"@);
    reveal_strlit("else");
    crate::spelling::lemma_reads("else"@);
}

proof fn lemma_layout_tests_8()
    ensures
        crate::tokens::is_code_text("if ( sum + s ) % 64 != 0"@),
{
    reveal_with_fuel(crate::spelling::reads, 25);
    reveal_strlit("if ( sum + s ) % 64 != 0");
    crate::spelling::lemma_reads("if ( sum + s ) % 64 != 0"@);
}

proof fn lemma_layout_tests_9()
    ensures
        crate::tokens::is_code_text("assert_eq ! ( sum / 64 , ( sum + s ) / 64 ) ;"@),
{
    reveal_with_fuel(crate::spelling::reads, 46);
    reveal_strlit("assert_eq ! ( sum / 64 , ( sum + s ) / 64 ) ;");
    crate::spelling::lemma_reads("assert_eq ! ( sum / 64 , ( sum + s ) / 64 ) ;"@);
}

proof fn lemma_layout_tests_10()
    ensures
        crate::tokens::is_code_text("sum += s ;"@),
{
    reveal_with_fuel(crate::spelling::reads, 11);
    reveal_strlit("sum += s ;");
    crate::spelling::lemma_reads("sum += s ;"@);
}

/// The texts of the tests on the layout.
pub proof fn lemma_texts_of_layout_tests()
    ensures
        crate::tokens::is_code_text("# [ test ] fn test_total_size ( )"@),
        crate::tokens::is_code_text("let total_size ="@),
        crate::tokens::is_code_text("; assert_eq ! ( total_size % 8 , 0 ) ;"@),
        crate::tokens::is_code_text("# [ test ] fn test_bits_boundary ( )"@),
        crate::tokens::is_code_text("let fields_sizes = vec !"@),
        crate::tokens::is_code_text("; let mut sum ="@),
        crate::tokens::is_code_text("; for s in fields_sizes"@),
        crate::tokens::is_code_text("if sum % 64 == 0"@),
        crate::tokens::is_code_text("assert ! ( s <= 64 ) ;"@),
        crate::tokens::is_code_text("else"@),
        crate::tokens::is_code_text("if ( sum + s ) % 64 != 0"@),
        crate::tokens::is_code_text("assert_eq ! ( sum / 64 , ( sum + s ) / 64 ) ;"@),
        crate::tokens::is_code_text("sum += s ;"@),
{
    lemma_layout_tests_1();
    lemma_layout_tests_2();
    lemma_layout_tests_3();
    lemma_layout_tests_4();
    lemma_layout_tests_5();
    lemma_layout_tests_6();
    lemma_layout_tests_7();
    lemma_layout_tests_8();
    lemma_layout_tests_9();
    lemma_layout_tests_10();
}

proof fn lemma_field_tests_1()
    ensures
        crate::tokens::is_code_text("# [ test ] fn"@),
        crate::tokens::is_code_text("( )"@),
        crate::tokens::is_code_text("let mut a ="@),
        crate::tokens::is_code_text(":: new ( ) ;"@),
{
    reveal_with_fuel(crate::spelling::reads, 14);
    reveal_strlit("# [ test ] fn");
    crate::spelling::lemma_reads("# [ test ] fn"@);
    reveal_strlit("( )");
    crate::spelling::lemma_reads("( )"@);
    reveal_strlit("let mut a =");
    crate::spelling::lemma_reads("let mut a ="@);
    reveal_strlit(":: new ( ) ;");
    crate::spelling::lemma_reads(":: new ( ) ;"@);
}

proof fn lemma_field_tests_2()
    ensures
        crate::tokens::is_code_text("let val = <"@),
{
    reveal_with_fuel(crate::spelling::reads, 12);
    reveal_strlit("let val = <");
    crate::spelling::lemma_reads("let val = <"@);
}

proof fn lemma_field_tests_3()
    ensures
        crate::tokens::is_code_text(INTO_U64@),
{
    reveal_with_fuel(crate::spelling::reads, 51);
    reveal_strlit("as :: bit_field :: BitFieldSpecifier > :: into_u64");
    crate::spelling::lemma_reads(INTO_U64@);
}

proof fn lemma_field_tests_4()
    ensures
        crate::tokens::is_code_text("a ."@),
        crate::tokens::is_code_text("; assert_eq ! ( val , 0 ) ; let val = <"@),
{
    reveal_with_fuel(crate::spelling::reads, 40);
    reveal_strlit("a .");
    crate::spelling::lemma_reads("a ."@);
    reveal_strlit("; assert_eq ! ( val , 0 ) ; let val = <");
    crate::spelling::lemma_reads("; assert_eq ! ( val , 0 ) ; let val = <"@);
}

proof fn lemma_field_tests_5()
    ensures
        crate::tokens::is_code_text(FROM_U64@),
{
    reveal_with_fuel(crate::spelling::reads, 51);
    reveal_strlit("as :: bit_field :: BitFieldSpecifier > :: from_u64");
    crate::spelling::lemma_reads(FROM_U64@);
}

proof fn lemma_field_tests_6()
    ensures
        crate::tokens::is_code_text(":: bit_field :: max :: <"@),
        crate::tokens::is_code_text("; a ."@),
        crate::tokens::is_code_text("( val ) ;"@),
{
    reveal_with_fuel(crate::spelling::reads, 25);
    reveal_strlit(":: bit_field :: max :: <");
    crate::spelling::lemma_reads(":: bit_field :: max :: <"@);
    reveal_strlit("; a .");
    crate::spelling::lemma_reads("; a ."@);
    reveal_strlit("( val ) ;");
    crate::spelling::lemma_reads("( val ) ;"@);
}

proof fn lemma_field_tests_7()
    ensures
        crate::tokens::is_code_text("; assert_eq !"@),
        crate::tokens::is_code_text("val , :: bit_field :: max :: <"@),
        crate::tokens::is_code_text(";"@),
{
    reveal_with_fuel(crate::spelling::reads, 31);
    reveal_strlit("; assert_eq !");
    crate::spelling::lemma_reads("; assert_eq !"@);
    reveal_strlit("val , :: bit_field :: max :: <");
    crate::spelling::lemma_reads("val , :: bit_field :: max :: <"@);
    reveal_strlit(";");
    crate::spelling::lemma_reads(";"@);
}

proof fn lemma_field_tests_8()
    ensures
        crate::tokens::is_code_text("> ( )"@),
{
    reveal_with_fuel(crate::spelling::reads, 6);
    reveal_strlit("> ( )");
    crate::spelling::lemma_reads("> ( )"@);
}

/// The texts of the tests on fields.
pub proof fn lemma_texts_of_field_tests()
    ensures
        crate::tokens::is_code_text("# [ test ] fn"@),
        crate::tokens::is_code_text("( )"@),
        crate::tokens::is_code_text("let mut a ="@),
        crate::tokens::is_code_text(":: new ( ) ;"@),
        crate::tokens::is_code_text("let val = <"@),
        crate::tokens::is_code_text(INTO_U64@),
        crate::tokens::is_code_text("a ."@),
        crate::tokens::is_code_text("; assert_eq ! ( val , 0 ) ; let val = <"@),
        crate::tokens::is_code_text(FROM_U64@),
        crate::tokens::is_code_text(":: bit_field :: max :: <"@),
        crate::tokens::is_code_text("; a ."@),
        crate::tokens::is_code_text("( val ) ;"@),
        crate::tokens::is_code_text("; assert_eq !"@),
        crate::tokens::is_code_text("val , :: bit_field :: max :: <"@),
        crate::tokens::is_code_text(";"@),
        crate::tokens::is_code_text("> ( )"@),
{
    lemma_field_tests_1();
    lemma_field_tests_2();
    lemma_field_tests_3();
    lemma_field_tests_4();
    lemma_field_tests_5();
    lemma_field_tests_6();
    lemma_field_tests_7();
    lemma_field_tests_8();
}

proof fn lemma_frame_1()
    ensures
        crate::tokens::is_code_text("impl"@),
        crate::tokens::is_code_text("# [ cfg ( test ) ] mod"@),
        crate::tokens::is_code_text("use super :: * ;"@),
{
    reveal_with_fuel(crate::spelling::reads, 23);
    reveal_strlit("impl");
    crate::spelling::lemma_reads("impl"@);
    reveal_strlit("# [ cfg ( test ) ] mod");
    crate::spelling::lemma_reads("# [ cfg ( test ) ] mod"@);
    reveal_strlit("use super :: * ;");
    crate::spelling::lemma_reads("use super :: * ;"@);
}

proof fn lemma_frame_2()
    ensures
        crate::tokens::is_code_text("compile_error !"@),
        crate::tokens::is_code_text(";"@),
{
    reveal_with_fuel(crate::spelling::reads, 16);
    reveal_strlit("compile_error !");
    crate::spelling::lemma_reads("compile_error !"@);
    reveal_strlit(";");
    crate::spelling::lemma_reads(";"@);
}

/// The texts of the rest of the expansion.
pub proof fn lemma_texts_of_frame()
    ensures
        crate::tokens::is_code_text("impl"@),
        crate::tokens::is_code_text("# [ cfg ( test ) ] mod"@),
        crate::tokens::is_code_text("use super :: * ;"@),
        crate::tokens::is_code_text("compile_error !"@),
        crate::tokens::is_code_text(";"@),
{
    lemma_frame_1();
    lemma_frame_2();
}

proof fn lemma_specifiers_1()
    ensures
        crate::tokens::is_code_text("pub struct"@),
        crate::tokens::is_code_text("; pub use self ::"@),
        crate::tokens::is_code_text("as"@),
{
    reveal_with_fuel(crate::spelling::reads, 18);
    reveal_strlit("pub struct");
    crate::spelling::lemma_reads("pub struct"@);
    reveal_strlit("; pub use self ::");
    crate::spelling::lemma_reads("; pub use self ::"@);
    reveal_strlit("as");
    crate::spelling::lemma_reads("as"@);
}

proof fn lemma_specifiers_2()
    ensures
        crate::tokens::is_code_text("; impl BitFieldSpecifier for"@),
{
    reveal_with_fuel(crate::spelling::reads, 29);
    reveal_strlit("; impl BitFieldSpecifier for");
    crate::spelling::lemma_reads("; impl BitFieldSpecifier for"@);
}

proof fn lemma_specifiers_3()
    ensures
        crate::tokens::is_code_text("const FIELD_WIDTH : u8 ="@),
{
    reveal_with_fuel(crate::spelling::reads, 25);
    reveal_strlit("const FIELD_WIDTH : u8 =");
    crate::spelling::lemma_reads("const FIELD_WIDTH : u8 ="@);
}

proof fn lemma_specifiers_4()
    ensures
        crate::tokens::is_code_text("; type DefaultFieldType ="@),
        crate::tokens::is_code_text("u8"@),
        crate::tokens::is_code_text("u16"@),
        crate::tokens::is_code_text("u32"@),
        crate::tokens::is_code_text("u64"@),
{
    reveal_with_fuel(crate::spelling::reads, 26);
    reveal_strlit("; type DefaultFieldType =");
    crate::spelling::lemma_reads("; type DefaultFieldType ="@);
    reveal_strlit("u8");
    crate::spelling::lemma_reads("u8"@);
    reveal_strlit("u16");
    crate::spelling::lemma_reads("u16"@);
    reveal_strlit("u32");
    crate::spelling::lemma_reads("u32"@);
    reveal_strlit("u64");
    crate::spelling::lemma_reads("u64"@);
}

proof fn lemma_specifiers_5()
    ensures
        crate::tokens::is_code_text("; # [ inline ] fn from_u64 ( val : u64 ) -> Self :: DefaultFieldType"@),
{
    reveal_with_fuel(crate::spelling::reads, 69);
    reveal_strlit("; # [ inline ] fn from_u64 ( val : u64 ) -> Self :: DefaultFieldType");
    crate::spelling::lemma_reads("; # [ inline ] fn from_u64 ( val : u64 ) -> Self :: DefaultFieldType"@);
}

proof fn lemma_specifiers_6()
    ensures
        crate::tokens::is_code_text("val as Self :: DefaultFieldType"@),
{
    reveal_with_fuel(crate::spelling::reads, 32);
    reveal_strlit("val as Self :: DefaultFieldType");
    crate::spelling::lemma_reads("val as Self :: DefaultFieldType"@);
}

proof fn lemma_specifiers_7()
    ensures
        crate::tokens::is_code_text("# [ inline ] fn into_u64 ( val : Self :: DefaultFieldType ) -> u64"@),
{
    reveal_with_fuel(crate::spelling::reads, 67);
    reveal_strlit("# [ inline ] fn into_u64 ( val : Self :: DefaultFieldType ) -> u64");
    crate::spelling::lemma_reads("# [ inline ] fn into_u64 ( val : Self :: DefaultFieldType ) -> u64"@);
}

proof fn lemma_specifiers_8()
    ensures
        crate::tokens::is_code_text("val as u64"@),
        crate::tokens::is_code_text("impl private :: Sealed for"@),
        crate::tokens::is_code_text("{ }"@),
{
    reveal_with_fuel(crate::spelling::reads, 27);
    reveal_strlit("val as u64");
    crate::spelling::lemma_reads("val as u64"@);
    reveal_strlit("impl private :: Sealed for");
    crate::spelling::lemma_reads("impl private :: Sealed for"@);
    reveal_strlit("{ }");
    crate::spelling::lemma_reads("{ }"@);
}

/// The texts of the marker types.
pub proof fn lemma_texts_of_specifiers()
    ensures
        crate::tokens::is_code_text("pub struct"@),
        crate::tokens::is_code_text("; pub use self ::"@),
        crate::tokens::is_code_text("as"@),
        crate::tokens::is_code_text("; impl BitFieldSpecifier for"@),
        crate::tokens::is_code_text("const FIELD_WIDTH : u8 ="@),
        crate::tokens::is_code_text("; type DefaultFieldType ="@),
        crate::tokens::is_code_text("u8"@),
        crate::tokens::is_code_text("u16"@),
        crate::tokens::is_code_text("u32"@),
        crate::tokens::is_code_text("u64"@),
        crate::tokens::is_code_text("; # [ inline ] fn from_u64 ( val : u64 ) -> Self :: DefaultFieldType"@),
        crate::tokens::is_code_text("val as Self :: DefaultFieldType"@),
        crate::tokens::is_code_text("# [ inline ] fn into_u64 ( val : Self :: DefaultFieldType ) -> u64"@),
        crate::tokens::is_code_text("val as u64"@),
        crate::tokens::is_code_text("impl private :: Sealed for"@),
        crate::tokens::is_code_text("{ }"@),
{
    lemma_specifiers_1();
    lemma_specifiers_2();
    lemma_specifiers_3();
    lemma_specifiers_4();
    lemma_specifiers_5();
    lemma_specifiers_6();
    lemma_specifiers_7();
    lemma_specifiers_8();
}

} // verus!
