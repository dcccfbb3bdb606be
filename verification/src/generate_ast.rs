//! The build-time generator for reference-counted node/visitor
//! boilerplate: from a grammar description it mechanically emits, for each
//! node family, the enum over its variants, identity-based equality and
//! hashing, visitor dispatch, the per-variant structs, and the visitor
//! trait. The emitted text is itself specified: each file's content equals
//! a spec-level fold over the grammar description.
//!
//! The generator computes the file texts; writing them to disk is the
//! embedding program's business.

use vstd::prelude::*;
use vstd::string::StringExecFns;

verus! {

/// One variant of a node family: the variant name, the struct name, the
/// lower-case label used in visitor method names, and the declared
/// fields, each already rendered as `name: Type`.
pub struct TreeType {
    pub base_class_name: String,
    pub class_name: String,
    pub label: String,
    pub fields: Vec<String>,
}

/// Ghost view of a variant description.
pub ghost struct GTree {
    pub base: Seq<char>,
    pub class: Seq<char>,
    pub label: Seq<char>,
    pub fields: Seq<Seq<char>>,
}

/// Ghost view of a grammar description.
pub open spec fn trees_view(ts: Seq<TreeType>) -> Seq<GTree> {
    ts.map_values(
        |t: TreeType| GTree {
            base: t.base_class_name@,
            class: t.class_name@,
            label: t.label@,
            fields: t.fields@.map_values(|f: String| f@),
        },
    )
}

/// The import lines: module imports, with `rc` standing for the
/// reference-counting import.
pub open spec fn sp_imports(imports: Seq<Seq<char>>, i: int) -> Seq<char>
    decreases i,
{
    if i <= 0 || i > imports.len() {
        Seq::empty()
    } else {
        sp_imports(imports, i - 1) + (if imports[i - 1] == "rc"@ {
            "use std::rc::Rc;\n"@
        } else {
            "use crate::"@ + imports[i - 1] + "::*;\n"@
        })
    }
}

/// The enum arms: one reference-counted variant per description entry.
pub open spec fn sp_enum_arms(ts: Seq<GTree>, i: int) -> Seq<char>
    decreases i,
{
    if i <= 0 || i > ts.len() {
        Seq::empty()
    } else {
        sp_enum_arms(ts, i - 1) + "    "@ + ts[i - 1].base + "(Rc<"@ + ts[i - 1].class + ">),\n"@
    }
}

/// The equality arms: two nodes are equal only when they are the same
/// reference — identity, never structure.
pub open spec fn sp_eq_arms(base: Seq<char>, ts: Seq<GTree>, i: int) -> Seq<char>
    decreases i,
{
    if i <= 0 || i > ts.len() {
        Seq::empty()
    } else {
        sp_eq_arms(base, ts, i - 1) + "            ("@ + base + "::"@ + ts[i - 1].base
            + "(expr1), "@ + base + "::"@ + ts[i - 1].base + "(expr2)) => Rc::ptr_eq(expr1, expr2),\n"@
    }
}

/// The hash arms: a node hashes by its address, matching identity
/// equality.
pub open spec fn sp_hash_arms(base: Seq<char>, ts: Seq<GTree>, i: int) -> Seq<char>
    decreases i,
{
    if i <= 0 || i > ts.len() {
        Seq::empty()
    } else {
        sp_hash_arms(base, ts, i - 1) + "            "@ + base + "::"@ + ts[i - 1].base
            + "(expr) => {hasher.write_usize(Rc::as_ptr(expr) as usize);}\n"@
    }
}

/// The dispatch arms of `accept`: each variant calls its visitor method.
pub open spec fn sp_accept_arms(base: Seq<char>, basel: Seq<char>, ts: Seq<GTree>, i: int) -> Seq<
    char,
>
    decreases i,
{
    if i <= 0 || i > ts.len() {
        Seq::empty()
    } else {
        sp_accept_arms(base, basel, ts, i - 1) + "            "@ + base + "::"@ + ts[i - 1].base
            + "(expr) => "@ + basel + "_visitor.visit_"@ + ts[i - 1].label + "_"@ + basel
            + "(wrapper,&expr),\n"@
    }
}

/// The field lines of one variant struct.
pub open spec fn sp_field_lines(fields: Seq<Seq<char>>, j: int) -> Seq<char>
    decreases j,
{
    if j <= 0 || j > fields.len() {
        Seq::empty()
    } else {
        sp_field_lines(fields, j - 1) + "    pub "@ + fields[j - 1] + ",\n"@
    }
}

/// The per-variant structs.
pub open spec fn sp_structs(ts: Seq<GTree>, i: int) -> Seq<char>
    decreases i,
{
    if i <= 0 || i > ts.len() {
        Seq::empty()
    } else {
        sp_structs(ts, i - 1) + "pub struct "@ + ts[i - 1].class + " {\n"@ + sp_field_lines(
            ts[i - 1].fields,
            ts[i - 1].fields.len() as int,
        ) + "}\n"@
    }
}

/// The visitor-trait methods, one per variant.
pub open spec fn sp_visitor_fns(base: Seq<char>, basel: Seq<char>, ts: Seq<GTree>, i: int) -> Seq<
    char,
>
    decreases i,
{
    if i <= 0 || i > ts.len() {
        Seq::empty()
    } else {
        sp_visitor_fns(base, basel, ts, i - 1) + "    fn visit_"@ + ts[i - 1].label + "_"@ + basel
            + "(&self, wrapper: Rc<"@ + base + ">, "@ + basel + ": &"@ + ts[i - 1].class
            + ") -> Result<T,LoxResult>;\n"@
    }
}

/// One generated file: imports, the enum, identity equality and hash,
/// visitor dispatch, the variant structs, and the visitor trait.
pub open spec fn sp_define_ast(
    base: Seq<char>,
    basel: Seq<char>,
    imports: Seq<Seq<char>>,
    ts: Seq<GTree>,
) -> Seq<char> {
    sp_imports(imports, imports.len() as int) + "pub enum "@ + base + " {\n"@ + sp_enum_arms(
        ts,
        ts.len() as int,
    ) + "}\n"@ + "impl PartialEq for "@ + base + " {\n    fn eq(&self, other: &Self) -> bool {\n        match (self, other) {\n"@
        + sp_eq_arms(base, ts, ts.len() as int)
        + "          _=> false,\n      }\n  }\n}\n\nimpl Eq for "@ + base
        + "{}\n\nuse std::hash::*;\nimpl Hash for "@ + base
        + " {\n    fn hash<H: Hasher>(&self, hasher: &mut H)\n    where H: Hasher, \n       { match self {\n"@
        + sp_hash_arms(base, ts, ts.len() as int) + "        }\n    }\n}\nimpl "@ + base
        + " {\n    pub fn accept<T>(&self, wrapper: Rc<"@ + base + ">, "@ + basel
        + "_visitor: &dyn "@ + base + "Visitor<T>) -> Result<T, LoxResult> {\n        match self {\n"@
        + sp_accept_arms(base, basel, ts, ts.len() as int)
        + "        }\n    }\n}\n"@ + sp_structs(ts, ts.len() as int) + "pub trait "@ + base
        + "Visitor<T> {\n"@ + sp_visitor_fns(base, basel, ts, ts.len() as int) + "}\n"@
}

/// Render one generated file from a grammar description.
pub fn define_ast(
    base_name: &str,
    base_lower: &str,
    imports: &Vec<String>,
    types: &Vec<TreeType>,
) -> (content: String)
    ensures
        content@ == sp_define_ast(
            base_name@,
            base_lower@,
            imports@.map_values(|m: String| m@),
            trees_view(types@),
        ),
{
    let ghost gimports = imports@.map_values(|m: String| m@);
    let ghost gts = trees_view(types@);
    let mut out = String::new();
    let n_imports = imports.len();
    let mut i: usize = 0;
    while i < n_imports
        invariant
            0 <= i <= n_imports,
            n_imports == imports@.len(),
            gimports == imports@.map_values(|m: String| m@),
            out@ == sp_imports(gimports, i as int),
        decreases n_imports - i,
    {
        if str_is_rc(&imports[i]) {
            out.append("use std::rc::Rc;\n");
        } else {
            out.append("use crate::");
            out.append(imports[i].as_str());
            out.append("::*;\n");
        }
        proof {
            assert(gimports[i as int] == imports@[i as int]@);
            assert(out@ =~= sp_imports(gimports, i as int + 1));
        }
        i = i + 1;
    }
    out.append("pub enum ");
    out.append(base_name);
    out.append(" {\n");
    let ghost head1 = out@;
    let n = types.len();
    let mut i: usize = 0;
    while i < n
        invariant
            0 <= i <= n,
            n == types@.len(),
            gts == trees_view(types@),
            out@ == head1 + sp_enum_arms(gts, i as int),
        decreases n - i,
    {
        out.append("    ");
        out.append(types[i].base_class_name.as_str());
        out.append("(Rc<");
        out.append(types[i].class_name.as_str());
        out.append(">),\n");
        proof {
            assert(gts[i as int].base == types@[i as int].base_class_name@);
            assert(gts[i as int].class == types@[i as int].class_name@);
            assert(out@ =~= head1 + sp_enum_arms(gts, i as int + 1));
        }
        i = i + 1;
    }
    out.append("}\n");
    out.append("impl PartialEq for ");
    out.append(base_name);
    out.append(" {\n    fn eq(&self, other: &Self) -> bool {\n        match (self, other) {\n");
    let ghost head2 = out@;
    let mut i: usize = 0;
    while i < n
        invariant
            0 <= i <= n,
            n == types@.len(),
            gts == trees_view(types@),
            out@ == head2 + sp_eq_arms(base_name@, gts, i as int),
        decreases n - i,
    {
        out.append("            (");
        out.append(base_name);
        out.append("::");
        out.append(types[i].base_class_name.as_str());
        out.append("(expr1), ");
        out.append(base_name);
        out.append("::");
        out.append(types[i].base_class_name.as_str());
        out.append("(expr2)) => Rc::ptr_eq(expr1, expr2),\n");
        proof {
            assert(gts[i as int].base == types@[i as int].base_class_name@);
            assert(out@ =~= head2 + sp_eq_arms(base_name@, gts, i as int + 1));
        }
        i = i + 1;
    }
    out.append("          _=> false,\n      }\n  }\n}\n\nimpl Eq for ");
    out.append(base_name);
    out.append("{}\n\nuse std::hash::*;\nimpl Hash for ");
    out.append(base_name);
    out.append(" {\n    fn hash<H: Hasher>(&self, hasher: &mut H)\n    where H: Hasher, \n       { match self {\n");
    let ghost head3 = out@;
    let mut i: usize = 0;
    while i < n
        invariant
            0 <= i <= n,
            n == types@.len(),
            gts == trees_view(types@),
            out@ == head3 + sp_hash_arms(base_name@, gts, i as int),
        decreases n - i,
    {
        out.append("            ");
        out.append(base_name);
        out.append("::");
        out.append(types[i].base_class_name.as_str());
        out.append("(expr) => {hasher.write_usize(Rc::as_ptr(expr) as usize);}\n");
        proof {
            assert(gts[i as int].base == types@[i as int].base_class_name@);
            assert(out@ =~= head3 + sp_hash_arms(base_name@, gts, i as int + 1));
        }
        i = i + 1;
    }
    out.append("        }\n    }\n}\nimpl ");
    out.append(base_name);
    out.append(" {\n    pub fn accept<T>(&self, wrapper: Rc<");
    out.append(base_name);
    out.append(">, ");
    out.append(base_lower);
    out.append("_visitor: &dyn ");
    out.append(base_name);
    out.append("Visitor<T>) -> Result<T, LoxResult> {\n        match self {\n");
    let ghost head4 = out@;
    let mut i: usize = 0;
    while i < n
        invariant
            0 <= i <= n,
            n == types@.len(),
            gts == trees_view(types@),
            out@ == head4 + sp_accept_arms(base_name@, base_lower@, gts, i as int),
        decreases n - i,
    {
        out.append("            ");
        out.append(base_name);
        out.append("::");
        out.append(types[i].base_class_name.as_str());
        out.append("(expr) => ");
        out.append(base_lower);
        out.append("_visitor.visit_");
        out.append(types[i].label.as_str());
        out.append("_");
        out.append(base_lower);
        out.append("(wrapper,&expr),\n");
        proof {
            assert(gts[i as int].base == types@[i as int].base_class_name@);
            assert(gts[i as int].label == types@[i as int].label@);
            assert(out@ =~= head4 + sp_accept_arms(base_name@, base_lower@, gts, i as int + 1));
        }
        i = i + 1;
    }
    out.append("        }\n    }\n}\n");
    let ghost head5 = out@;
    let mut i: usize = 0;
    while i < n
        invariant
            0 <= i <= n,
            n == types@.len(),
            gts == trees_view(types@),
            out@ == head5 + sp_structs(gts, i as int),
        decreases n - i,
    {
        out.append("pub struct ");
        out.append(types[i].class_name.as_str());
        out.append(" {\n");
        let ghost headf = out@;
        let nf = types[i].fields.len();
        let mut j: usize = 0;
        while j < nf
            invariant
                0 <= j <= nf,
                0 <= i < n,
                n == types@.len(),
                gts == trees_view(types@),
                nf == types@[i as int].fields@.len(),
                out@ == headf + sp_field_lines(gts[i as int].fields, j as int),
            decreases nf - j,
        {
            out.append("    pub ");
            out.append(types[i].fields[j].as_str());
            out.append(",\n");
            proof {
                assert(gts[i as int].fields[j as int] == types@[i as int].fields@[j as int]@);
                assert(out@ =~= headf + sp_field_lines(gts[i as int].fields, j as int + 1));
            }
            j = j + 1;
        }
        out.append("}\n");
        proof {
            assert(gts[i as int].class == types@[i as int].class_name@);
            assert(gts[i as int].fields.len() == nf);
            assert(out@ =~= head5 + sp_structs(gts, i as int + 1));
        }
        i = i + 1;
    }
    out.append("pub trait ");
    out.append(base_name);
    out.append("Visitor<T> {\n");
    let ghost head6 = out@;
    let mut i: usize = 0;
    while i < n
        invariant
            0 <= i <= n,
            n == types@.len(),
            gts == trees_view(types@),
            out@ == head6 + sp_visitor_fns(base_name@, base_lower@, gts, i as int),
        decreases n - i,
    {
        out.append("    fn visit_");
        out.append(types[i].label.as_str());
        out.append("_");
        out.append(base_lower);
        out.append("(&self, wrapper: Rc<");
        out.append(base_name);
        out.append(">, ");
        out.append(base_lower);
        out.append(": &");
        out.append(types[i].class_name.as_str());
        out.append(") -> Result<T,LoxResult>;\n");
        proof {
            assert(gts[i as int].label == types@[i as int].label@);
            assert(gts[i as int].class == types@[i as int].class_name@);
            assert(out@ =~= head6 + sp_visitor_fns(base_name@, base_lower@, gts, i as int + 1));
        }
        i = i + 1;
    }
    out.append("}\n");
    proof {
        assert(out@ =~= sp_define_ast(
            base_name@,
            base_lower@,
            imports@.map_values(|m: String| m@),
            trees_view(types@),
        ));
    }
    out
}

/// Whether a module name is the `rc` marker.
fn str_is_rc(s: &String) -> (b: bool)
    ensures
        b == (s@ == "rc"@),
{
    crate::ops::str_eq(s.as_str(), "rc")
}

/// One variant description.
fn tree(base: &str, class: &str, label: &str, fields: Vec<String>) -> (t: TreeType)
    ensures
        t.base_class_name@ == base@,
        t.class_name@ == class@,
        t.label@ == label@,
        t.fields == fields,
{
    TreeType {
        base_class_name: String::from_str(base),
        class_name: String::from_str(class),
        label: String::from_str(label),
        fields,
    }
}

/// A one-element field list.
fn fields1(a: &str) -> (v: Vec<String>)
    ensures
        v@.map_values(|f: String| f@) =~= seq![a@],
{
    let mut v: Vec<String> = Vec::new();
    v.push(String::from_str(a));
    v
}

/// A two-element field list.
fn fields2(a: &str, b: &str) -> (v: Vec<String>)
    ensures
        v@.map_values(|f: String| f@) =~= seq![a@, b@],
{
    let mut v: Vec<String> = Vec::new();
    v.push(String::from_str(a));
    v.push(String::from_str(b));
    v
}

/// A three-element field list.
fn fields3(a: &str, b: &str, c: &str) -> (v: Vec<String>)
    ensures
        v@.map_values(|f: String| f@) =~= seq![a@, b@, c@],
{
    let mut v: Vec<String> = Vec::new();
    v.push(String::from_str(a));
    v.push(String::from_str(b));
    v.push(String::from_str(c));
    v
}

/// The module imports of the expression file.
pub open spec fn expr_imports() -> Seq<Seq<char>> {
    seq!["error"@, "token"@, "object"@, "rc"@]
}

/// The module imports of the statement file.
pub open spec fn stmt_imports() -> Seq<Seq<char>> {
    seq!["error"@, "expr"@, "token"@, "rc"@]
}

/// The grammar description of the expression family.
pub open spec fn expr_grammar() -> Seq<GTree> {
    seq![
        GTree {
            base: "Assign"@,
            class: "AssignExpr"@,
            label: "assign"@,
            fields: seq!["name: Token"@, "value: Rc<Expr>"@],
        },
        GTree {
            base: "Binary"@,
            class: "BinaryExpr"@,
            label: "binary"@,
            fields: seq!["left: Rc<Expr>"@, "operator: Token"@, "right: Rc<Expr>"@],
        },
        GTree {
            base: "Call"@,
            class: "CallExpr"@,
            label: "call"@,
            fields: seq!["callee: Rc<Expr>"@, "paren: Token"@, "arguments: Vec<Rc<Expr>>"@],
        },
        GTree {
            base: "Grouping"@,
            class: "GroupingExpr"@,
            label: "grouping"@,
            fields: seq!["expression: Rc<Expr>"@],
        },
        GTree {
            base: "Literal"@,
            class: "LiteralExpr"@,
            label: "literal"@,
            fields: seq!["value: Option<Object>"@],
        },
        GTree {
            base: "Logical"@,
            class: "LogicalExpr"@,
            label: "logical"@,
            fields: seq!["left: Rc<Expr>"@, "operator: Token"@, "right: Rc<Expr>"@],
        },
        GTree {
            base: "Unary"@,
            class: "UnaryExpr"@,
            label: "unary"@,
            fields: seq!["operator: Token"@, "right: Rc<Expr>"@],
        },
        GTree {
            base: "Variable"@,
            class: "VariableExpr"@,
            label: "variable"@,
            fields: seq!["name: Token"@],
        },
    ]
}

/// The grammar description of the statement family.
pub open spec fn stmt_grammar() -> Seq<GTree> {
    seq![
        GTree {
            base: "Block"@,
            class: "BlockStmt"@,
            label: "block"@,
            fields: seq!["statements: Rc<Vec<Rc<Stmt>>>"@],
        },
        GTree {
            base: "If"@,
            class: "IfStmt"@,
            label: "if"@,
            fields: seq![
                "condition: Rc<Expr>"@,
                "then_branch: Rc<Stmt>"@,
                "else_branch: Option<Rc<Stmt>>"@,
            ],
        },
        GTree {
            base: "Expression"@,
            class: "ExpressionStmt"@,
            label: "expression"@,
            fields: seq!["expression: Rc<Expr>"@],
        },
        GTree {
            base: "Function"@,
            class: "FunctionStmt"@,
            label: "function"@,
            fields: seq!["name: Token"@, "params: Rc<Vec<Token>>"@, "body: Rc<Vec<Rc<Stmt>>>"@],
        },
        GTree { base: "Break"@, class: "BreakStmt"@, label: "break"@, fields: seq!["token: Token"@] },
        GTree {
            base: "Print"@,
            class: "PrintStmt"@,
            label: "print"@,
            fields: seq!["expression: Rc<Expr>"@],
        },
        GTree {
            base: "Return"@,
            class: "ReturnStmt"@,
            label: "return"@,
            fields: seq!["token: Token"@, "value: Option<Rc<Expr>>"@],
        },
        GTree {
            base: "Var"@,
            class: "VarStmt"@,
            label: "var"@,
            fields: seq!["name: Token"@, "initializer: Option<Rc<Expr>>"@],
        },
        GTree {
            base: "While"@,
            class: "WhileStmt"@,
            label: "while"@,
            fields: seq!["condition: Rc<Expr>"@, "body: Rc<Stmt>"@],
        },
    ]
}

/// Generate the node/visitor boilerplate for both node families: the
/// expression file and the statement file, as name/content pairs for the
/// embedding program to write out. The contents are exactly the spec-level
/// renderings of the fixed grammar descriptions.
pub fn generate_ast() -> (files: Vec<(String, String)>)
    ensures
        files@.len() == 2,
        files@[0].0@ == "expr.rs"@,
        files@[1].0@ == "stmt.rs"@,
        files@[0].1@ == sp_define_ast("Expr"@, "expr"@, expr_imports(), expr_grammar()),
        files@[1].1@ == sp_define_ast("Stmt"@, "stmt"@, stmt_imports(), stmt_grammar()),
{
    let mut expr_mods: Vec<String> = Vec::new();
    expr_mods.push(String::from_str("error"));
    expr_mods.push(String::from_str("token"));
    expr_mods.push(String::from_str("object"));
    expr_mods.push(String::from_str("rc"));
    let mut expr_types: Vec<TreeType> = Vec::new();
    expr_types.push(tree("Assign", "AssignExpr", "assign", fields2("name: Token", "value: Rc<Expr>")));
    expr_types.push(
        tree(
            "Binary",
            "BinaryExpr",
            "binary",
            fields3("left: Rc<Expr>", "operator: Token", "right: Rc<Expr>"),
        ),
    );
    expr_types.push(
        tree(
            "Call",
            "CallExpr",
            "call",
            fields3("callee: Rc<Expr>", "paren: Token", "arguments: Vec<Rc<Expr>>"),
        ),
    );
    expr_types.push(tree("Grouping", "GroupingExpr", "grouping", fields1("expression: Rc<Expr>")));
    expr_types.push(tree("Literal", "LiteralExpr", "literal", fields1("value: Option<Object>")));
    expr_types.push(
        tree(
            "Logical",
            "LogicalExpr",
            "logical",
            fields3("left: Rc<Expr>", "operator: Token", "right: Rc<Expr>"),
        ),
    );
    expr_types.push(tree("Unary", "UnaryExpr", "unary", fields2("operator: Token", "right: Rc<Expr>")));
    expr_types.push(tree("Variable", "VariableExpr", "variable", fields1("name: Token")));
    proof {
        assert(expr_mods@.map_values(|m: String| m@) =~= expr_imports());
        assert(trees_view(expr_types@) =~~= expr_grammar());
    }
    let expr_content = define_ast("Expr", "expr", &expr_mods, &expr_types);

    let mut stmt_mods: Vec<String> = Vec::new();
    stmt_mods.push(String::from_str("error"));
    stmt_mods.push(String::from_str("expr"));
    stmt_mods.push(String::from_str("token"));
    stmt_mods.push(String::from_str("rc"));
    let mut stmt_types: Vec<TreeType> = Vec::new();
    stmt_types.push(tree("Block", "BlockStmt", "block", fields1("statements: Rc<Vec<Rc<Stmt>>>")));
    stmt_types.push(
        tree(
            "If",
            "IfStmt",
            "if",
            fields3(
                "condition: Rc<Expr>",
                "then_branch: Rc<Stmt>",
                "else_branch: Option<Rc<Stmt>>",
            ),
        ),
    );
    stmt_types.push(tree("Expression", "ExpressionStmt", "expression", fields1("expression: Rc<Expr>")));
    stmt_types.push(
        tree(
            "Function",
            "FunctionStmt",
            "function",
            fields3("name: Token", "params: Rc<Vec<Token>>", "body: Rc<Vec<Rc<Stmt>>>"),
        ),
    );
    stmt_types.push(tree("Break", "BreakStmt", "break", fields1("token: Token")));
    stmt_types.push(tree("Print", "PrintStmt", "print", fields1("expression: Rc<Expr>")));
    stmt_types.push(
        tree("Return", "ReturnStmt", "return", fields2("token: Token", "value: Option<Rc<Expr>>")),
    );
    stmt_types.push(
        tree("Var", "VarStmt", "var", fields2("name: Token", "initializer: Option<Rc<Expr>>")),
    );
    stmt_types.push(
        tree("While", "WhileStmt", "while", fields2("condition: Rc<Expr>", "body: Rc<Stmt>")),
    );
    proof {
        assert(stmt_mods@.map_values(|m: String| m@) =~= stmt_imports());
        assert(trees_view(stmt_types@) =~~= stmt_grammar());
    }
    let stmt_content = define_ast("Stmt", "stmt", &stmt_mods, &stmt_types);

    let mut files: Vec<(String, String)> = Vec::new();
    files.push((String::from_str("expr.rs"), expr_content));
    files.push((String::from_str("stmt.rs"), stmt_content));
    files
}

} // verus!
