# lua_flow

Flow-sensitive type analysis of Lua programs, verified with Verus.

The library answers the question "what type does this variable have here?" by walking a flow tree
backwards from a program point, and it binds the types of declarations and members while
statements are analysed.  What an expression or a type means is up to the program that embeds the
library: it implements `db::SemanticModel`.  Nothing is taken for granted about what a model
replies.  A model has a ghost log of what it was asked, and every contract says which questions it
is asked, in which order, and what follows from the replies.

| Module | Content |
| --- | --- |
| `ids`, `types`, `syntax`, `infer`, `flow_tree` | the data: identifiers, types, syntax, results, flow trees |
| `keyed`, `cache` | hash maps over hashbrown, and the inference cache of a file |
| `db` | the model and its log, the database that passes calls on to it, the replay of a log |
| `blank_model` | a model that knows nothing |
| `condition_flow` | what a condition says about a variable |
| `cast_flow`, `assignment_expr`, `flow_info` | casts, assigned expressions, what is remembered per flow node |
| `flow_query`, `type_at_flow` | the type of a variable at a program point: what it is, and how it is found |
| `walk` | how a walk goes from node to node |
| `markers` | proof that a walk leaves no marker of work under way in the cache |
| `allowance` | proof that the allowance of steps bounds a walk and decides nothing else |
| `stats` | the analysis of statements |
| `glob` | how deep a glob nests, and how often it repeats things |
| `loader` | which files of a workspace are loaded, and what text they hold |

`app/` holds what surrounds the library: the file system, and the reading of the parser's syntax
tree into the library's plain values.
