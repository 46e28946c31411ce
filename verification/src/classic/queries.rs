use vstd::prelude::*;

verus! {

/// Definitions of a template: the name after `set`, `macro`, `for` and `with`.
pub const JINJA_DEF: &'static str = r#"

(
  [
    (
      (keyword) @key_name
      (identifier) @key_id
      (#not-match? @key_id "(^\\d+$)")
    )    
  ]
  (#match? @key_name "(set|macro|for|with)")
)
"#;

/// Names used in a template's expressions and statements.
pub const JINJA_REF: &'static str = r#"
(
  [     
    (expression
      (identifier) @key_id
    ) @temp_expression

    (statement
      (keyword) @key_name
      (identifier) @key_id
      (#any-of? @key_name "set" "macro" "for" "with")
    ) @temp_statement
  ]
)
"#;

/// Names handed to a `context!` macro in Rust code.
pub const RUST_DEF: &'static str = r#"
(macro_invocation
	(identifier) @context
    (token_tree
    	(identifier) @key_id
    )
    (#eq? @context "context")
) @temp_expression  
"#;

/// Places in a template where a completion may start.
pub const JINJA_COMPLETION: &'static str = r#"
 ( 
   [	
    (expression
        (identifier) @key_id
        (operator) @pipe
        (identifier)? @filter
        (#match? @pipe "|")
    ) @pipe_waiting

  	(
      	(statement
          	_
              (keyword) @key_name
              (identifier)? @key_id
              (#match? @key_name "(if|in|and|or|elif)")
              (_)
          ) 
    ) @ident_waiting

    (expression
    	(expression_begin) @start
        (expression_end) @end
    ) @empty_expression
    (#not-match? @empty_expression "\\|")

    ]
  )
"#;

/// Names in a template that may be looked up.
pub const GOTO_DEF_JINJA: &'static str = r#"
( 
   [	
    (expression
        (expression_begin)
        identifier: (identifier) @key_id
        (operator) @pipe
        (identifier)? @filter
        (#not-eq? @filter @key_id) 
        (#match? @pipe "|")
    ) @expr_with_pipes

  	(
      	(statement
          	_
              (keyword) @key_name
              identifier: (identifier)? @key_id
              (#match? @key_name "(if|in|and|or|elif)")
              (_)
          ) 
    ) @just_statement

    (expression
        (identifier) @key_id
    ) @basic_expr
    (#not-match? @basic_expr "\\|")

    ]
  )
"#;

/// Names in a template's expressions and statements, with their pipes.
pub const TEMP: &'static str = r#"
(
    [
        (expression
            (
                (expression_begin)
                identifier: (identifier) @key_id
            )
            (operator)? @pipe
            (identifier)? @filter
            (#not-eq? @filter @key_id) 
            (#match? @pipe "|")
        ) @temp_expression

        (
          	(statement
            	_
                  (keyword) @key_name
                  identifier: (identifier) @key_id
                  (#match? @key_name "(if|in|and|or|elif)")
                  _
              ) 
        ) @just_statement

    ]
)
"#;

} // verus!
