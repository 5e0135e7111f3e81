//! Code snippet tables for symbol practice in three programming
//! languages, six difficulty levels each.

use vstd::prelude::*;
use vstd::string::StringExecFns;

verus! {

/// Programming language selection.
#[derive(Debug, Clone, Copy, PartialEq, Eq, Structural)]
pub enum ProgrammingLanguage {
    TypeScript,
    Rust,
    Python,
}

/// Symbol category for progressive learning.
#[derive(Debug, Clone, Copy, PartialEq, Eq, Structural)]
pub enum SymbolCategory {
    Brackets,
    BasicOps,
    Comparison,
    Arrows,
    Compound,
    Special,
}

/// A code snippet template with its difficulty (1 ..= 6).
#[derive(Debug, Clone, PartialEq)]
pub struct CodeSnippet {
    pub category: SymbolCategory,
    pub template: String,
    pub difficulty: u8,
}

impl CodeSnippet {
    pub fn new(category: SymbolCategory, template: &str, difficulty: u8) -> (r: Self)
        ensures
            r.category == category,
            r.template@ == template@,
            r.difficulty == difficulty,
    {
        Self { category, template: String::from_str(template), difficulty }
    }
}

/// Every snippet's difficulty lies in 1 ..= 6.
pub open spec fn difficulties_in_range(s: Seq<CodeSnippet>) -> bool {
    forall|i: int| 0 <= i < s.len() ==> 1 <= (#[trigger] s[i]).difficulty <= 6
}

/// TypeScript snippets: three per level.
pub fn typescript_snippets() -> (r: Vec<CodeSnippet>)
    ensures
        r@.len() == 18,
        difficulties_in_range(r@),
        forall|d: int| 1 <= d <= 6 ==> (#[trigger] r@[3 * (d - 1)]).difficulty == d,
        forall|i: int| 0 <= i < r@.len() ==> (#[trigger] r@[i]).template@.len() > 0,
{
    let mut v: Vec<CodeSnippet> = Vec::new();
    proof {
        reveal_strlit("const arr = [1, 2, 3];");
        reveal_strlit("const obj = { key: value };");
        reveal_strlit("function test() {}");
        reveal_strlit("let x = 5 + 3;");
        reveal_strlit("const result = a * b - c;");
        reveal_strlit("x += 10;");
        reveal_strlit("if (x === 5) {}");
        reveal_strlit("while (i < 10) { i++; }");
        reveal_strlit("if (x !== null && x > 0) {}");
        reveal_strlit("const fn = (x) => x * 2;");
        reveal_strlit("arr.map(x => x + 1);");
        reveal_strlit("const value: number = 42;");
        reveal_strlit("x ||= defaultValue;");
        reveal_strlit("if (a && b || c) {}");
        reveal_strlit("result ??= fallback;");
        reveal_strlit("const sum = (arr: number[]): number => arr.reduce((a, b) => a + b, 0);");
        reveal_strlit("type User = { name: string; age: number };");
        reveal_strlit("const filtered = items.filter(x => x.active).map(x => x.value);");
    }
    v.push(CodeSnippet::new(SymbolCategory::Brackets, "const arr = [1, 2, 3];", 1));
    v.push(CodeSnippet::new(SymbolCategory::Brackets, "const obj = { key: value };", 1));
    v.push(CodeSnippet::new(SymbolCategory::Brackets, "function test() {}", 1));
    v.push(CodeSnippet::new(SymbolCategory::BasicOps, "let x = 5 + 3;", 2));
    v.push(CodeSnippet::new(SymbolCategory::BasicOps, "const result = a * b - c;", 2));
    v.push(CodeSnippet::new(SymbolCategory::BasicOps, "x += 10;", 2));
    v.push(CodeSnippet::new(SymbolCategory::Comparison, "if (x === 5) {}", 3));
    v.push(CodeSnippet::new(SymbolCategory::Comparison, "while (i < 10) { i++; }", 3));
    v.push(CodeSnippet::new(SymbolCategory::Comparison, "if (x !== null && x > 0) {}", 3));
    v.push(CodeSnippet::new(SymbolCategory::Arrows, "const fn = (x) => x * 2;", 4));
    v.push(CodeSnippet::new(SymbolCategory::Arrows, "arr.map(x => x + 1);", 4));
    v.push(CodeSnippet::new(SymbolCategory::Special, "const value: number = 42;", 4));
    v.push(CodeSnippet::new(SymbolCategory::Compound, "x ||= defaultValue;", 5));
    v.push(CodeSnippet::new(SymbolCategory::Compound, "if (a && b || c) {}", 5));
    v.push(CodeSnippet::new(SymbolCategory::Compound, "result ??= fallback;", 5));
    v.push(
        CodeSnippet::new(
            SymbolCategory::Arrows,
            "const sum = (arr: number[]): number => arr.reduce((a, b) => a + b, 0);",
            6,
        ),
    );
    v.push(
        CodeSnippet::new(SymbolCategory::Brackets, "type User = { name: string; age: number };", 6),
    );
    v.push(
        CodeSnippet::new(
            SymbolCategory::Arrows,
            "const filtered = items.filter(x => x.active).map(x => x.value);",
            6,
        ),
    );
    v
}

/// Rust snippets: three per level.
pub fn rust_snippets() -> (r: Vec<CodeSnippet>)
    ensures
        r@.len() == 18,
        difficulties_in_range(r@),
        forall|d: int| 1 <= d <= 6 ==> (#[trigger] r@[3 * (d - 1)]).difficulty == d,
        forall|i: int| 0 <= i < r@.len() ==> (#[trigger] r@[i]).template@.len() > 0,
{
    let mut v: Vec<CodeSnippet> = Vec::new();
    proof {
        reveal_strlit("let vec = vec![1, 2, 3];");
        reveal_strlit("fn main() {}");
        reveal_strlit("struct Point { x: i32, y: i32 }");
        reveal_strlit("let x = 5 + 3;");
        reveal_strlit("let result = a * b - c;");
        reveal_strlit("x += 10;");
        reveal_strlit("if x == 5 {}");
        reveal_strlit("while i < 10 { i += 1; }");
        reveal_strlit("if x != 0 && x > 5 {}");
        reveal_strlit("fn add(x: i32) -> i32 { x + 1 }");
        reveal_strlit("match x { 0 => \"zero\", _ => \"other\" }");
        reveal_strlit("use std::collections::HashMap;");
        reveal_strlit("|x| x * 2");
        reveal_strlit("impl<T> Trait for Type<T> {}");
        reveal_strlit("Vec::<i32>::new()");
        reveal_strlit("fn sum(arr: &[i32]) -> i32 { arr.iter().fold(0, |a, &b| a + b) }");
        reveal_strlit("let result: Vec<_> = items.iter().filter(|&&x| x > 0).collect();");
        reveal_strlit("pub struct Config<'a> { name: &'a str }");
    }
    v.push(CodeSnippet::new(SymbolCategory::Brackets, "let vec = vec![1, 2, 3];", 1));
    v.push(CodeSnippet::new(SymbolCategory::Brackets, "fn main() {}", 1));
    v.push(CodeSnippet::new(SymbolCategory::Brackets, "struct Point { x: i32, y: i32 }", 1));
    v.push(CodeSnippet::new(SymbolCategory::BasicOps, "let x = 5 + 3;", 2));
    v.push(CodeSnippet::new(SymbolCategory::BasicOps, "let result = a * b - c;", 2));
    v.push(CodeSnippet::new(SymbolCategory::BasicOps, "x += 10;", 2));
    v.push(CodeSnippet::new(SymbolCategory::Comparison, "if x == 5 {}", 3));
    v.push(CodeSnippet::new(SymbolCategory::Comparison, "while i < 10 { i += 1; }", 3));
    v.push(CodeSnippet::new(SymbolCategory::Comparison, "if x != 0 && x > 5 {}", 3));
    v.push(CodeSnippet::new(SymbolCategory::Arrows, "fn add(x: i32) -> i32 { x + 1 }", 4));
    v.push(
        CodeSnippet::new(SymbolCategory::Arrows, "match x { 0 => \"zero\", _ => \"other\" }", 4),
    );
    v.push(CodeSnippet::new(SymbolCategory::Special, "use std::collections::HashMap;", 4));
    v.push(CodeSnippet::new(SymbolCategory::Arrows, "|x| x * 2", 5));
    v.push(CodeSnippet::new(SymbolCategory::Special, "impl<T> Trait for Type<T> {}", 5));
    v.push(CodeSnippet::new(SymbolCategory::Arrows, "Vec::<i32>::new()", 5));
    v.push(
        CodeSnippet::new(
            SymbolCategory::Arrows,
            "fn sum(arr: &[i32]) -> i32 { arr.iter().fold(0, |a, &b| a + b) }",
            6,
        ),
    );
    v.push(
        CodeSnippet::new(
            SymbolCategory::Arrows,
            "let result: Vec<_> = items.iter().filter(|&&x| x > 0).collect();",
            6,
        ),
    );
    v.push(
        CodeSnippet::new(SymbolCategory::Special, "pub struct Config<'a> { name: &'a str }", 6),
    );
    v
}

/// Python snippets: three per level.
pub fn python_snippets() -> (r: Vec<CodeSnippet>)
    ensures
        r@.len() == 18,
        difficulties_in_range(r@),
        forall|d: int| 1 <= d <= 6 ==> (#[trigger] r@[3 * (d - 1)]).difficulty == d,
        forall|i: int| 0 <= i < r@.len() ==> (#[trigger] r@[i]).template@.len() > 0,
{
    let mut v: Vec<CodeSnippet> = Vec::new();
    proof {
        reveal_strlit("arr = [1, 2, 3]");
        reveal_strlit("def test():");
        reveal_strlit("obj = {\"key\": \"value\"}");
        reveal_strlit("x = 5 + 3");
        reveal_strlit("result = a * b - c");
        reveal_strlit("x += 10");
        reveal_strlit("if x == 5:");
        reveal_strlit("while i < 10: i += 1");
        reveal_strlit("if x != 0 and x > 5:");
        reveal_strlit("def func(x: int) -> int:");
        reveal_strlit("result = [x for x in arr]");
        reveal_strlit("@decorator");
        reveal_strlit("{k: v for k, v in items}");
        reveal_strlit("lambda x: x * 2");
        reveal_strlit("print(f\"value: {x}\")");
        reveal_strlit("def sum(arr: list[int]) -> int: return sum(x for x in arr)");
        reveal_strlit("result = [x * 2 for x in items if x > 0]");
        reveal_strlit("class Config: name: str; value: int");
    }
    v.push(CodeSnippet::new(SymbolCategory::Brackets, "arr = [1, 2, 3]", 1));
    v.push(CodeSnippet::new(SymbolCategory::Brackets, "def test():", 1));
    v.push(CodeSnippet::new(SymbolCategory::Brackets, "obj = {\"key\": \"value\"}", 1));
    v.push(CodeSnippet::new(SymbolCategory::BasicOps, "x = 5 + 3", 2));
    v.push(CodeSnippet::new(SymbolCategory::BasicOps, "result = a * b - c", 2));
    v.push(CodeSnippet::new(SymbolCategory::BasicOps, "x += 10", 2));
    v.push(CodeSnippet::new(SymbolCategory::Comparison, "if x == 5:", 3));
    v.push(CodeSnippet::new(SymbolCategory::Comparison, "while i < 10: i += 1", 3));
    v.push(CodeSnippet::new(SymbolCategory::Comparison, "if x != 0 and x > 5:", 3));
    v.push(CodeSnippet::new(SymbolCategory::Special, "def func(x: int) -> int:", 4));
    v.push(CodeSnippet::new(SymbolCategory::Brackets, "result = [x for x in arr]", 4));
    v.push(CodeSnippet::new(SymbolCategory::Special, "@decorator", 4));
    v.push(CodeSnippet::new(SymbolCategory::Brackets, "{k: v for k, v in items}", 5));
    v.push(CodeSnippet::new(SymbolCategory::Special, "lambda x: x * 2", 5));
    v.push(CodeSnippet::new(SymbolCategory::Brackets, "print(f\"value: {x}\")", 5));
    v.push(
        CodeSnippet::new(
            SymbolCategory::Brackets,
            "def sum(arr: list[int]) -> int: return sum(x for x in arr)",
            6,
        ),
    );
    v.push(
        CodeSnippet::new(SymbolCategory::Brackets, "result = [x * 2 for x in items if x > 0]", 6),
    );
    v.push(
        CodeSnippet::new(SymbolCategory::Special, "class Config: name: str; value: int", 6),
    );
    v
}

} // verus!
